use rhio::sidecar::{hash_block, path_for, to_hex, Sidecar, SIDECAR_VERSION};

#[test]
fn sidecar_path_appends_rio() {
    assert_eq!(path_for("/home/me/.zshrc"), "/home/me/.zshrc.rio");
    assert_eq!(path_for("test.sh"), "test.sh.rio");
}

#[test]
fn default_sidecar_is_empty_v1() {
    let s = Sidecar::default();
    assert_eq!(s.version, 1);
    assert_eq!(SIDECAR_VERSION, 1);
    assert!(s.managed_block_hash.is_none());
    assert!(s.ignored.is_empty());
}

#[test]
fn hash_block_is_hex_sha256() {
    assert_eq!(
        hash_block(""),
        "e3b0c44298fc1c149afbf4c8996fb92427ae41e4649b934ca495991b7852b855"
    );
    assert_eq!(
        hash_block("abc"),
        "ba7816bf8f01cfea414140de5dae2223b00361a396177a9cb410ff61f20015ad"
    );
}

#[test]
fn hash_block_is_stable_and_distinguishes_content() {
    assert_eq!(hash_block("FOO=bar"), hash_block("FOO=bar"));
    assert_ne!(hash_block("FOO=bar"), hash_block("FOO=tampered"));
    assert_eq!(hash_block("FOO=bar").len(), 64);
}

#[test]
fn hex_is_lowercase_two_digits_per_byte() {
    assert_eq!(to_hex(&[]), "");
    assert_eq!(to_hex(&[0x00, 0x0f, 0xa5, 0xff]), "000fa5ff");
}
