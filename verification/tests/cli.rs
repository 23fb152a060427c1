use rhio::block::BLOCK_OPEN;
use rhio::cli::{
    apply, diff, init, status, CliError, Cli, Command, FileState, Outcome, Report, SidecarState,
    Snapshot, StatusState,
};
use rhio::sidecar::{hash_block, Sidecar};

/// The files one command looks at, kept in memory.
#[derive(Default)]
struct Disk {
    target: Option<String>,
    sidecar: Option<Sidecar>,
    from_file: Option<String>,
}

impl Disk {
    fn snapshot(&self) -> Snapshot {
        Snapshot {
            target: match &self.target {
                Some(t) => FileState::Read(t.clone()),
                None => FileState::Absent,
            },
            sidecar: match &self.sidecar {
                Some(s) => SidecarState::Loaded(s.clone()),
                None => SidecarState::Absent,
            },
            from_file: match &self.from_file {
                Some(t) => FileState::Read(t.clone()),
                None => FileState::Absent,
            },
        }
    }

    /// Runs a command and performs its writes, as the program does.
    fn run(&mut self, command: Command) -> Result<Report, CliError> {
        let cli = Cli { command };
        let Outcome { target_text, sidecar, result } = cli.run(&self.snapshot());
        if let Some(t) = target_text {
            self.target = Some(t);
        }
        if let Some(s) = sidecar {
            self.sidecar = Some(s);
        }
        result
    }
}

fn init_cmd(path: &str, content: &str) -> Command {
    Command::Init(init::Args { path: path.to_string(), content: Some(content.to_string()), from: None })
}

fn apply_cmd(path: &str, content: &str) -> Command {
    Command::Apply(apply::Args { path: path.to_string(), content: Some(content.to_string()), from: None })
}

fn diff_cmd(path: &str, content: &str) -> Command {
    Command::Diff(diff::Args { path: path.to_string(), content: Some(content.to_string()), from: None })
}

fn status_cmd(path: &str) -> Command {
    Command::Status(status::Args { path: path.to_string() })
}

#[test]
fn init_creates_block_and_sidecar() {
    let mut disk = Disk::default();
    let report = disk.run(init_cmd("test.sh", "export FOO=bar")).unwrap();
    assert_eq!(report, Report::Initialized { path: "test.sh".to_string(), managed_bytes: 14 });
    let body = disk.target.clone().unwrap();
    assert!(body.contains("# >>> RhuffusIO Managed Block >>>"));
    assert!(body.contains("export FOO=bar"));
    let sidecar = disk.sidecar.clone().unwrap();
    assert_eq!(sidecar.version, 1);
    assert_eq!(sidecar.managed_block_hash, Some(hash_block("export FOO=bar")));
}

#[test]
fn init_refuses_when_sidecar_already_exists() {
    let mut disk = Disk::default();
    disk.run(init_cmd("test.sh", "first")).unwrap();
    let before = disk.target.clone();
    let err = disk.run(init_cmd("test.sh", "second")).unwrap_err();
    assert_eq!(err, CliError::SidecarExists { sidecar_path: "test.sh.rio".to_string() });
    assert_eq!(disk.target, before);
}

#[test]
fn init_refuses_even_an_unreadable_sidecar() {
    let cli = Cli { command: init_cmd("x.sh", "A=1") };
    let snapshot = Snapshot {
        target: FileState::Absent,
        sidecar: SidecarState::Failed("bad toml".to_string()),
        from_file: FileState::Absent,
    };
    let out = cli.run(&snapshot);
    assert_eq!(out.target_text, None);
    assert_eq!(out.result, Err(CliError::SidecarExists { sidecar_path: "x.sh.rio".to_string() }));
}

#[test]
fn apply_is_idempotent_and_status_reports_clean() {
    let mut disk = Disk::default();
    disk.run(apply_cmd("test.sh", "alias gs='git status'")).unwrap();
    let (t1, s1) = (disk.target.clone(), disk.sidecar.clone());
    // Second apply with same content: same hash, still clean.
    disk.run(apply_cmd("test.sh", "alias gs='git status'")).unwrap();
    assert_eq!(disk.target, t1);
    assert_eq!(disk.sidecar, s1);
    let report = disk.run(status_cmd("test.sh")).unwrap();
    assert_eq!(report, Report::Status { path: "test.sh".to_string(), state: StatusState::Clean });
}

#[test]
fn status_reports_drift_after_manual_edit() {
    let mut disk = Disk::default();
    disk.run(init_cmd("test.sh", "FOO=bar")).unwrap();
    // Manually edit the file, replacing the managed block content.
    let tampered = disk.target.clone().unwrap().replace("FOO=bar", "FOO=tampered");
    disk.target = Some(tampered);
    let report = disk.run(status_cmd("test.sh")).unwrap();
    assert_eq!(report, Report::Status { path: "test.sh".to_string(), state: StatusState::Drift });
}

#[test]
fn diff_reports_no_changes_when_content_matches() {
    let mut disk = Disk::default();
    disk.run(init_cmd("test.sh", "X=1")).unwrap();
    let report = disk.run(diff_cmd("test.sh", "X=1")).unwrap();
    assert_eq!(report, Report::Unchanged { path: "test.sh".to_string() });
}

#[test]
fn init_with_from_flag_reads_content_file() {
    let mut disk = Disk {
        from_file: Some("alias k=kubectl\nalias d=docker\n".to_string()),
        ..Disk::default()
    };
    let cmd = Command::Init(init::Args {
        path: "target.sh".to_string(),
        content: None,
        from: Some("source.sh".to_string()),
    });
    disk.run(cmd).unwrap();
    let body = disk.target.clone().unwrap();
    assert!(body.contains("alias k=kubectl"));
    assert!(body.contains("alias d=docker"));
}

#[test]
fn apply_after_drift_restores_clean_status() {
    let mut disk = Disk::default();
    disk.run(init_cmd("test.sh", "FOO=bar")).unwrap();
    // Tamper.
    let tampered = disk.target.clone().unwrap().replace("FOO=bar", "FOO=tampered");
    disk.target = Some(tampered);
    // Apply with the original content restores the block and rebases the hash.
    disk.run(apply_cmd("test.sh", "FOO=bar")).unwrap();
    let report = disk.run(status_cmd("test.sh")).unwrap();
    assert_eq!(report, Report::Status { path: "test.sh".to_string(), state: StatusState::Clean });
}

#[test]
fn status_reports_unmanaged_file() {
    let mut disk = Disk { target: Some("echo hello\n".to_string()), ..Disk::default() };
    let report = disk.run(status_cmd("plain.sh")).unwrap();
    assert_eq!(report, Report::Status { path: "plain.sh".to_string(), state: StatusState::NotManaged });
}

#[test]
fn status_reports_missing_block() {
    let mut disk = Disk::default();
    disk.run(init_cmd("test.sh", "A=1")).unwrap();
    disk.target = Some("echo hello\n".to_string());
    let report = disk.run(status_cmd("test.sh")).unwrap();
    assert_eq!(report, Report::Status { path: "test.sh".to_string(), state: StatusState::BlockMissing });
}

#[test]
fn diff_shows_both_sides_when_content_differs() {
    let mut disk = Disk::default();
    disk.run(init_cmd("test.sh", "OLD=1")).unwrap();
    let report = disk.run(diff_cmd("test.sh", "NEW=2")).unwrap();
    assert_eq!(
        report,
        Report::Changes {
            path: "test.sh".to_string(),
            current: "OLD=1".to_string(),
            proposed: "NEW=2".to_string()
        }
    );
}

#[test]
fn diff_of_unmanaged_file_shows_empty_current() {
    let mut disk = Disk::default();
    let report = disk.run(diff_cmd("new.sh", "A=1")).unwrap();
    assert_eq!(
        report,
        Report::Changes { path: "new.sh".to_string(), current: String::new(), proposed: "A=1".to_string() }
    );
}

#[test]
fn init_creates_file_when_missing() {
    let mut disk = Disk::default();
    assert!(disk.target.is_none());
    disk.run(init_cmd("brand-new.sh", "echo hi")).unwrap();
    let body = disk.target.clone().unwrap();
    assert!(body.contains("# >>> RhuffusIO Managed Block >>>"));
    assert!(body.contains("echo hi"));
    assert!(body.starts_with(BLOCK_OPEN));
}

#[test]
fn init_keeps_user_text_above_the_block() {
    let mut disk = Disk { target: Some("export EDITOR=nvim\n".to_string()), ..Disk::default() };
    disk.run(init_cmd("z.sh", "A=1")).unwrap();
    assert!(disk.target.clone().unwrap().starts_with("export EDITOR=nvim\n\n# >>>"));
}

#[test]
fn content_is_required_and_exclusive() {
    let mut disk = Disk::default();
    let none = Command::Apply(apply::Args { path: "a".to_string(), content: None, from: None });
    assert_eq!(disk.run(none).unwrap_err(), CliError::MissingContent);
    let both = Command::Apply(apply::Args {
        path: "a".to_string(),
        content: Some("x".to_string()),
        from: Some("f".to_string()),
    });
    assert_eq!(disk.run(both).unwrap_err(), CliError::ConflictingContent);
}

#[test]
fn unreadable_files_are_reported() {
    let cli = Cli { command: diff_cmd("t.sh", "A=1") };
    let snapshot = Snapshot {
        target: FileState::Failed("permission denied".to_string()),
        sidecar: SidecarState::Absent,
        from_file: FileState::Absent,
    };
    assert_eq!(
        cli.run(&snapshot).result,
        Err(CliError::Read { path: "t.sh".to_string(), message: "permission denied".to_string() })
    );
    let cmd = Command::Init(init::Args { path: "t.sh".to_string(), content: None, from: Some("src.sh".to_string()) });
    let snapshot = Snapshot {
        target: FileState::Absent,
        sidecar: SidecarState::Absent,
        from_file: FileState::Failed("not found".to_string()),
    };
    assert_eq!(
        Cli { command: cmd }.run(&snapshot).result,
        Err(CliError::Read { path: "src.sh".to_string(), message: "not found".to_string() })
    );
}

#[test]
fn apply_writes_the_file_before_failing_on_a_bad_sidecar() {
    let cli = Cli { command: apply_cmd("t.sh", "A=1") };
    let snapshot = Snapshot {
        target: FileState::Absent,
        sidecar: SidecarState::Failed("expected `=`".to_string()),
        from_file: FileState::Absent,
    };
    let out = cli.run(&snapshot);
    assert!(out.target_text.is_some());
    assert_eq!(out.sidecar, None);
    assert_eq!(
        out.result,
        Err(CliError::Sidecar { path: "t.sh.rio".to_string(), message: "expected `=`".to_string() })
    );
}

#[test]
fn apply_keeps_ignored_entries() {
    let mut disk = Disk::default();
    disk.sidecar = Some(Sidecar { version: 1, managed_block_hash: None, ignored: vec!["abc".to_string()] });
    disk.run(apply_cmd("t.sh", "A=1")).unwrap();
    let sc = disk.sidecar.clone().unwrap();
    assert_eq!(sc.ignored, vec!["abc".to_string()]);
    assert_eq!(sc.managed_block_hash, Some(hash_block("A=1")));
}

#[test]
fn malformed_block_fails_apply_without_writing() {
    let text = format!("{BLOCK_OPEN}\nA=1\n");
    let mut disk = Disk { target: Some(text.clone()), ..Disk::default() };
    let err = disk.run(apply_cmd("t.sh", "B=2")).unwrap_err();
    assert_eq!(err, CliError::Block(rhio::block::BlockError::OrphanOpen));
    assert_eq!(disk.target, Some(text));
    assert!(disk.sidecar.is_none());
}

#[test]
fn report_texts() {
    let r = Report::Initialized { path: "test.sh".to_string(), managed_bytes: 14 };
    assert_eq!(r.text(), "rio: initialized test.sh (14 bytes managed)\n");
    assert_eq!(Report::Applied { path: "a".to_string() }.text(), "rio: applied a (block hash updated)\n");
    assert_eq!(Report::Unchanged { path: "a".to_string() }.text(), "a: no changes\n");
    let st = |state| Report::Status { path: "a".to_string(), state }.text();
    assert_eq!(st(StatusState::Clean), "a: clean\n");
    assert!(st(StatusState::Drift).contains("DRIFT"));
    assert!(st(StatusState::BlockMissing).contains("DRIFT"));
    assert!(st(StatusState::NotManaged).contains("not managed"));
    let changes = Report::Changes {
        path: "a".to_string(),
        current: "OLD=1".to_string(),
        proposed: String::new(),
    };
    assert_eq!(
        changes.text(),
        "=== current block (a) ===\nOLD=1\n=== proposed block ===\n(empty)\n"
    );
    let changes = Report::Changes {
        path: "a".to_string(),
        current: "x\n".to_string(),
        proposed: "NEW=2".to_string(),
    };
    assert_eq!(changes.text(), "=== current block (a) ===\nx\n=== proposed block ===\nNEW=2\n");
}

#[test]
fn error_texts() {
    let e = CliError::SidecarExists { sidecar_path: "t.sh.rio".to_string() };
    assert_eq!(e.text(), "sidecar already exists at t.sh.rio; use `rio apply` to reconcile");
    let e = CliError::Read { path: "f".to_string(), message: "gone".to_string() };
    assert_eq!(e.text(), "reading f: gone");
    let e = CliError::Block(rhio::block::BlockError::OrphanOpen);
    assert_eq!(e.text(), "malformed managed block: opening marker without a closing marker");
    assert_eq!(CliError::MissingContent.text(), "one of --content or --from is required");
}

#[test]
fn decimal_digits() {
    for (n, s) in [(0usize, "0"), (7, "7"), (10, "10"), (1234, "1234"), (usize::MAX, &usize::MAX.to_string()[..])] {
        let mut out = String::from("n=");
        rhio::text::push_decimal(&mut out, n);
        assert_eq!(out, format!("n={s}"));
    }
}
