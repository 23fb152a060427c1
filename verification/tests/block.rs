use rhio::block::{find, remove, upsert, BlockError, BLOCK_CLOSE, BLOCK_OPEN};

fn rendered(content: &str) -> String {
    format!("{BLOCK_OPEN}\n{content}\n{BLOCK_CLOSE}\n")
}

#[test]
fn markers_are_the_documented_lines() {
    assert_eq!(BLOCK_OPEN, "# >>> RhuffusIO Managed Block >>>");
    assert_eq!(BLOCK_CLOSE, "# <<< RhuffusIO Managed Block <<<");
}

#[test]
fn find_without_markers_is_none() {
    assert!(find("").unwrap().is_none());
    assert!(find("export EDITOR=nvim\nalias gst='git status'\n").unwrap().is_none());
}

#[test]
fn find_reads_the_block_content() {
    let text = format!("above\n{BLOCK_OPEN}\nexport PATH=x\nalias k=kubectl\n{BLOCK_CLOSE}\nbelow\n");
    let b = find(&text).unwrap().unwrap();
    assert_eq!(b.content, "export PATH=x\nalias k=kubectl");
    assert_eq!(b.start, 6);
    assert_eq!(b.end, text.chars().count() - "below\n".len());
}

#[test]
fn find_empty_block() {
    let text = format!("{BLOCK_OPEN}\n{BLOCK_CLOSE}\n");
    assert_eq!(find(&text).unwrap().unwrap().content, "");
    let text = format!("{BLOCK_OPEN}\n\n{BLOCK_CLOSE}");
    let b = find(&text).unwrap().unwrap();
    assert_eq!(b.content, "");
    assert_eq!(b.end, text.chars().count());
}

#[test]
fn marker_must_be_a_whole_line() {
    let text = format!("echo '{BLOCK_OPEN}'\n  {BLOCK_CLOSE}\n");
    assert!(find(&text).unwrap().is_none());
}

#[test]
fn malformed_blocks_are_reported() {
    let o = BLOCK_OPEN;
    let c = BLOCK_CLOSE;
    assert_eq!(find(&format!("{o}\nx\n")).err(), Some(BlockError::OrphanOpen));
    assert_eq!(find(&format!("x\n{c}\n")).err(), Some(BlockError::OrphanClose));
    assert_eq!(find(&format!("{o}\n{o}\n{c}\n")).err(), Some(BlockError::DuplicateOpen));
    assert_eq!(find(&format!("{o}\n{c}\n{c}\n")).err(), Some(BlockError::DuplicateClose));
    assert_eq!(find(&format!("{c}\nx\n{o}\n")).err(), Some(BlockError::CloseBeforeOpen));
}

#[test]
fn upsert_into_empty_text() {
    assert_eq!(upsert("", "X=1").unwrap(), rendered("X=1"));
}

#[test]
fn upsert_appends_after_a_blank_line() {
    assert_eq!(upsert("echo hi\n", "X=1").unwrap(), format!("echo hi\n\n{}", rendered("X=1")));
    assert_eq!(upsert("echo hi", "X=1").unwrap(), format!("echo hi\n\n{}", rendered("X=1")));
}

#[test]
fn upsert_replaces_in_place_and_keeps_user_text() {
    let text = format!("above\n{}below\n", rendered("OLD=1"));
    assert_eq!(upsert(&text, "NEW=2").unwrap(), format!("above\n{}below\n", rendered("NEW=2")));
}

#[test]
fn upsert_then_find_gives_the_content_back() {
    for content in ["", "X=1", "alias k=kubectl\nalias d=docker\n", "\n\n", "héllo wörld"] {
        for text in ["", "echo hi", "a\nb\n", &format!("x\n{}y", rendered("old"))] {
            let updated = upsert(text, content).unwrap();
            assert_eq!(find(&updated).unwrap().unwrap().content, content);
        }
    }
}

#[test]
fn upsert_is_idempotent() {
    for text in ["", "echo hi", "user stuff\n"] {
        let once = upsert(text, "FOO=bar").unwrap();
        let twice = upsert(&once, "FOO=bar").unwrap();
        assert_eq!(once, twice);
    }
}

#[test]
fn upsert_refuses_marker_lines_in_content() {
    let content = format!("a\n{BLOCK_CLOSE}\nb");
    assert_eq!(upsert("", &content), Err(BlockError::MarkerInContent));
    assert_eq!(upsert("", BLOCK_OPEN), Err(BlockError::MarkerInContent));
}

#[test]
fn upsert_refuses_malformed_text() {
    let text = format!("{BLOCK_OPEN}\nx\n");
    assert_eq!(upsert(&text, "y"), Err(BlockError::OrphanOpen));
}

#[test]
fn remove_strips_only_the_block() {
    let text = format!("above\n{}below\n", rendered("X=1"));
    assert_eq!(remove(&text).unwrap(), "above\nbelow\n");
    assert_eq!(remove("no block\n").unwrap(), "no block\n");
    assert_eq!(remove(&format!("{BLOCK_CLOSE}\n")), Err(BlockError::OrphanClose));
}

#[test]
fn remove_after_upsert() {
    let text = format!("above\n{}below\n", rendered("X=1"));
    let updated = upsert(&text, "Y=2").unwrap();
    assert_eq!(remove(&updated).unwrap(), remove(&text).unwrap());
    assert_eq!(remove(&upsert("plain", "Y=2").unwrap()).unwrap(), "plain\n\n");
    assert!(find(&remove(&updated).unwrap()).unwrap().is_none());
}
