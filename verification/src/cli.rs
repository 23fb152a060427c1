//! The commands of the tool, as decisions on what was read from disk.
//!
//! The program around this library parses the command line into a `Cli`,
//! reads the managed file, its sidecar and the `--from` file into a
//! `Snapshot`, and hands both to `Cli::run`. The `Outcome` says what to write
//! back (the managed file first, then the sidecar) and what to report.
use crate::block::{
    BlockError, lemma_find_after_upsert, lemma_upsert_idempotent, spec_find, spec_upsert,
};
use crate::sidecar::{Sidecar, SidecarView, spec_path_for};
use vstd::prelude::*;
use vstd::string::StringExecFns;
use crate::text::{decimal, ends_with_newline, push_decimal};

pub mod apply;
pub mod diff;
pub mod init;
pub mod status;

verus! {

/// A parsed command line.
#[derive(Debug, Clone, PartialEq, Eq)]
pub struct Cli {
    pub command: Command,
}

#[derive(Debug, Clone, PartialEq, Eq)]
pub enum Command {
    Init(init::Args),
    Status(status::Args),
    Apply(apply::Args),
    Diff(diff::Args),
}

/// What reading a file gave.
#[derive(Debug, Clone, PartialEq, Eq)]
pub enum FileState {
    /// The file does not exist, or was not asked for.
    Absent,
    Read(String),
    /// Reading failed, with the reason.
    Failed(String),
}

/// What reading and decoding a sidecar gave.
#[derive(Debug, Clone, PartialEq, Eq)]
pub enum SidecarState {
    Absent,
    Loaded(Sidecar),
    /// The sidecar exists but could not be read or decoded, with the reason.
    Failed(String),
}

/// The files a command may look at, as read before it runs.
#[derive(Debug, Clone, PartialEq, Eq)]
pub struct Snapshot {
    /// The managed file.
    pub target: FileState,
    /// The managed file's sidecar.
    pub sidecar: SidecarState,
    /// The file named by `--from`, when it is given.
    pub from_file: FileState,
}

/// Why a command failed.
#[derive(Debug, Clone, PartialEq, Eq)]
pub enum CliError {
    /// `init` found a sidecar at this path.
    SidecarExists { sidecar_path: String },
    /// Neither `--content` nor `--from` was given.
    MissingContent,
    /// Both `--content` and `--from` were given.
    ConflictingContent,
    /// A file could not be read.
    Read { path: String, message: String },
    /// The managed file's markers are malformed, or the content holds a marker line.
    Block(BlockError),
    /// The sidecar could not be read or decoded.
    Sidecar { path: String, message: String },
}

/// How a managed file stands against its sidecar.
#[derive(Debug, Clone, Copy, PartialEq, Eq, Structural)]
pub enum StatusState {
    /// The block's content hashes to the recorded hash.
    Clean,
    /// The file has a sidecar but no managed block.
    BlockMissing,
    /// The block's content does not hash to the recorded hash, or none is recorded.
    Drift,
    /// The file has no sidecar.
    NotManaged,
}

/// What a successful command reports.
#[derive(Debug, Clone, PartialEq, Eq)]
pub enum Report {
    Initialized { path: String, managed_bytes: usize },
    Applied { path: String },
    /// `diff`: the block already holds the proposed content.
    Unchanged { path: String },
    /// `diff`: the current and the proposed block content.
    Changes { path: String, current: String, proposed: String },
    Status { path: String, state: StatusState },
}

/// What a command decided: the managed file's new text, the sidecar to save,
/// and the result. Writes come first, in this order, then the result.
#[derive(Debug, PartialEq, Eq)]
pub struct Outcome {
    pub target_text: Option<String>,
    pub sidecar: Option<Sidecar>,
    pub result: Result<Report, CliError>,
}

pub enum FileStateView {
    Absent,
    Read(Seq<char>),
    Failed(Seq<char>),
}

pub enum SidecarStateView {
    Absent,
    Loaded(SidecarView),
    Failed(Seq<char>),
}

pub struct SnapshotView {
    pub target: FileStateView,
    pub sidecar: SidecarStateView,
    pub from_file: FileStateView,
}

pub enum CliErrorView {
    SidecarExists(Seq<char>),
    MissingContent,
    ConflictingContent,
    Read(Seq<char>, Seq<char>),
    Block(BlockError),
    Sidecar(Seq<char>, Seq<char>),
}

pub enum ReportView {
    Initialized(Seq<char>, usize),
    Applied(Seq<char>),
    Unchanged(Seq<char>),
    Changes(Seq<char>, Seq<char>, Seq<char>),
    Status(Seq<char>, StatusState),
}

pub struct OutcomeView {
    pub target_text: Option<Seq<char>>,
    pub sidecar: Option<SidecarView>,
    pub result: Result<ReportView, CliErrorView>,
}

/// The arguments of a command that takes a path and the block's content.
pub struct ArgsView {
    pub path: Seq<char>,
    pub content: Option<Seq<char>>,
    pub from: Option<Seq<char>>,
}

pub open spec fn opt_view(o: Option<String>) -> Option<Seq<char>> {
    match o {
        Some(s) => Some(s@),
        None => None,
    }
}

impl View for FileState {
    type V = FileStateView;

    open spec fn view(&self) -> FileStateView {
        match self {
            FileState::Absent => FileStateView::Absent,
            FileState::Read(t) => FileStateView::Read(t@),
            FileState::Failed(m) => FileStateView::Failed(m@),
        }
    }
}

impl View for SidecarState {
    type V = SidecarStateView;

    open spec fn view(&self) -> SidecarStateView {
        match self {
            SidecarState::Absent => SidecarStateView::Absent,
            SidecarState::Loaded(s) => SidecarStateView::Loaded(s@),
            SidecarState::Failed(m) => SidecarStateView::Failed(m@),
        }
    }
}

impl View for Snapshot {
    type V = SnapshotView;

    open spec fn view(&self) -> SnapshotView {
        SnapshotView { target: self.target@, sidecar: self.sidecar@, from_file: self.from_file@ }
    }
}

impl View for CliError {
    type V = CliErrorView;

    open spec fn view(&self) -> CliErrorView {
        match self {
            CliError::SidecarExists { sidecar_path } => CliErrorView::SidecarExists(sidecar_path@),
            CliError::MissingContent => CliErrorView::MissingContent,
            CliError::ConflictingContent => CliErrorView::ConflictingContent,
            CliError::Read { path, message } => CliErrorView::Read(path@, message@),
            CliError::Block(e) => CliErrorView::Block(*e),
            CliError::Sidecar { path, message } => CliErrorView::Sidecar(path@, message@),
        }
    }
}

impl View for Report {
    type V = ReportView;

    open spec fn view(&self) -> ReportView {
        match self {
            Report::Initialized { path, managed_bytes } => ReportView::Initialized(
                path@,
                *managed_bytes,
            ),
            Report::Applied { path } => ReportView::Applied(path@),
            Report::Unchanged { path } => ReportView::Unchanged(path@),
            Report::Changes { path, current, proposed } => ReportView::Changes(
                path@,
                current@,
                proposed@,
            ),
            Report::Status { path, state } => ReportView::Status(path@, *state),
        }
    }
}

impl View for Outcome {
    type V = OutcomeView;

    open spec fn view(&self) -> OutcomeView {
        OutcomeView {
            target_text: opt_view(self.target_text),
            sidecar: match self.sidecar {
                Some(s) => Some(s@),
                None => None,
            },
            result: match self.result {
                Ok(r) => Ok(r@),
                Err(e) => Err(e@),
            },
        }
    }
}

/// An outcome that writes nothing and fails with `e`.
pub open spec fn failed(e: CliErrorView) -> OutcomeView {
    OutcomeView { target_text: None, sidecar: None, result: Err(e) }
}

/// The block's content: `--content`, or the text of the `--from` file.
pub open spec fn spec_resolve_content(a: ArgsView, from_file: FileStateView) -> Result<
    Seq<char>,
    CliErrorView,
> {
    match (a.content, a.from) {
        (Some(_), Some(_)) => Err(CliErrorView::ConflictingContent),
        (Some(c), None) => Ok(c),
        (None, Some(p)) => match from_file {
            FileStateView::Read(t) => Ok(t),
            FileStateView::Failed(m) => Err(CliErrorView::Read(p, m)),
            FileStateView::Absent => Err(CliErrorView::Read(p, Seq::empty())),
        },
        (None, None) => Err(CliErrorView::MissingContent),
    }
}

/// The managed file's text: empty when it does not exist.
pub open spec fn spec_existing_text(path: Seq<char>, target: FileStateView) -> Result<
    Seq<char>,
    CliErrorView,
> {
    match target {
        FileStateView::Absent => Ok(Seq::empty()),
        FileStateView::Read(t) => Ok(t),
        FileStateView::Failed(m) => Err(CliErrorView::Read(path, m)),
    }
}

/// Takes the block's content from `--content` or from the `--from` file.
pub fn resolve_content(content: &Option<String>, from: &Option<String>, from_file: &FileState) -> (r:
    Result<String, CliError>)
    ensures
        match r {
            Ok(c) => spec_resolve_content(
                ArgsView { path: Seq::empty(), content: opt_view(*content), from: opt_view(*from) },
                from_file@,
            ) == Ok::<Seq<char>, CliErrorView>(c@),
            Err(e) => spec_resolve_content(
                ArgsView { path: Seq::empty(), content: opt_view(*content), from: opt_view(*from) },
                from_file@,
            ) == Err::<Seq<char>, CliErrorView>(e@),
        },
{
    match (content, from) {
        (Some(_), Some(_)) => Err(CliError::ConflictingContent),
        (Some(c), None) => Ok(c.clone()),
        (None, Some(p)) => match from_file {
            FileState::Read(t) => Ok(t.clone()),
            FileState::Failed(m) => Err(CliError::Read { path: p.clone(), message: m.clone() }),
            FileState::Absent => Err(CliError::Read { path: p.clone(), message: String::new() }),
        },
        (None, None) => Err(CliError::MissingContent),
    }
}

/// The managed file's text, empty when the file does not exist.
pub fn existing_text(path: &String, target: &FileState) -> (r: Result<String, CliError>)
    ensures
        match r {
            Ok(t) => spec_existing_text(path@, target@) == Ok::<Seq<char>, CliErrorView>(t@),
            Err(e) => spec_existing_text(path@, target@) == Err::<Seq<char>, CliErrorView>(e@),
        },
{
    match target {
        FileState::Absent => Ok(String::new()),
        FileState::Read(t) => Ok(t.clone()),
        FileState::Failed(m) => Err(CliError::Read { path: path.clone(), message: m.clone() }),
    }
}

impl View for Command {
    type V = CommandView;

    open spec fn view(&self) -> CommandView {
        match self {
            Command::Init(a) => CommandView::Init(a@),
            Command::Status(a) => CommandView::Status(a@),
            Command::Apply(a) => CommandView::Apply(a@),
            Command::Diff(a) => CommandView::Diff(a@),
        }
    }
}

pub enum CommandView {
    Init(ArgsView),
    Status(Seq<char>),
    Apply(ArgsView),
    Diff(ArgsView),
}

/// What a command decides on what was read from disk.
pub open spec fn spec_run(c: CommandView, s: SnapshotView) -> OutcomeView {
    match c {
        CommandView::Init(a) => init::spec_run(a, s),
        CommandView::Status(p) => status::spec_run(p, s),
        CommandView::Apply(a) => apply::spec_run(a, s),
        CommandView::Diff(a) => diff::spec_run(a, s),
    }
}

impl Cli {
    /// Runs the parsed command on what was read from disk.
    pub fn run(&self, snapshot: &Snapshot) -> (o: Outcome)
        ensures
            o@ == spec_run(self.command@, snapshot@),
    {
        match &self.command {
            Command::Init(args) => init::run(args, snapshot),
            Command::Status(args) => status::run(args, snapshot),
            Command::Apply(args) => apply::run(args, snapshot),
            Command::Diff(args) => diff::run(args, snapshot),
        }
    }
}

/// The files as a successful `init` or `apply` left them: the written
/// managed file, and the saved sidecar.
pub open spec fn written(o: OutcomeView, from_file: FileStateView) -> SnapshotView {
    SnapshotView {
        target: FileStateView::Read(o.target_text->Some_0),
        sidecar: SidecarStateView::Loaded(o.sidecar->Some_0),
        from_file,
    }
}

/// The content that `init` or `apply` wrote, for `a` and `s`.
proof fn lemma_written_block(a: ArgsView, s: SnapshotView, o: OutcomeView)
    requires
        o == init::spec_run(a, s) || o == apply::spec_run(a, s),
        o.result is Ok,
    ensures
        spec_resolve_content(a, s.from_file) is Ok,
        ({
            let c = spec_resolve_content(a, s.from_file)->Ok_0;
            let t = spec_existing_text(a.path, s.target)->Ok_0;
            &&& spec_existing_text(a.path, s.target) is Ok
            &&& spec_upsert(t, c) is Ok
            &&& o.target_text == Some(spec_upsert(t, c)->Ok_0)
            &&& o.sidecar is Some
            &&& o.sidecar->Some_0.managed_block_hash == Some(crate::sidecar::spec_hash_block(c))
            &&& spec_find(o.target_text->Some_0) matches Ok(Some(b)) && b.content == c
        }),
{
    let c = spec_resolve_content(a, s.from_file)->Ok_0;
    let t = spec_existing_text(a.path, s.target)->Ok_0;
    lemma_find_after_upsert(t, c);
}

/// Law: after a successful `init` or `apply`, `status` on the files they
/// wrote reports the file clean.
pub proof fn lemma_status_clean_after_write(a: ArgsView, s: SnapshotView, from_file: FileStateView)
    requires
        init::spec_run(a, s).result is Ok || apply::spec_run(a, s).result is Ok,
    ensures
        init::spec_run(a, s).result is Ok ==> status::spec_run(a.path, written(init::spec_run(a, s), from_file))
            == status::reported(ReportView::Status(a.path, StatusState::Clean)),
        apply::spec_run(a, s).result is Ok ==> status::spec_run(a.path, written(apply::spec_run(a, s), from_file))
            == status::reported(ReportView::Status(a.path, StatusState::Clean)),
{
    if init::spec_run(a, s).result is Ok {
        lemma_written_block(a, s, init::spec_run(a, s));
    }
    if apply::spec_run(a, s).result is Ok {
        lemma_written_block(a, s, apply::spec_run(a, s));
    }
}

/// Law: after a successful `init` or `apply`, `diff` with the same content
/// reports no changes.
pub proof fn lemma_diff_unchanged_after_write(a: ArgsView, s: SnapshotView)
    requires
        init::spec_run(a, s).result is Ok || apply::spec_run(a, s).result is Ok,
    ensures
        init::spec_run(a, s).result is Ok ==> diff::spec_run(a, written(init::spec_run(a, s), s.from_file)).result
            == Ok::<ReportView, CliErrorView>(ReportView::Unchanged(a.path)),
        apply::spec_run(a, s).result is Ok ==> diff::spec_run(a, written(apply::spec_run(a, s), s.from_file)).result
            == Ok::<ReportView, CliErrorView>(ReportView::Unchanged(a.path)),
{
    if init::spec_run(a, s).result is Ok {
        lemma_written_block(a, s, init::spec_run(a, s));
    }
    if apply::spec_run(a, s).result is Ok {
        lemma_written_block(a, s, apply::spec_run(a, s));
    }
}

/// Law: `apply` is idempotent. Applying the same content again to the files
/// it wrote writes them back unchanged.
pub proof fn lemma_apply_idempotent(a: ArgsView, s: SnapshotView)
    requires
        apply::spec_run(a, s).result is Ok,
    ensures
        ({
            let o = apply::spec_run(a, s);
            let o2 = apply::spec_run(a, written(o, s.from_file));
            &&& o2.target_text == o.target_text
            &&& o2.sidecar == o.sidecar
            &&& o2.result == o.result
        }),
{
    let o = apply::spec_run(a, s);
    lemma_written_block(a, s, o);
    let c = spec_resolve_content(a, s.from_file)->Ok_0;
    let t = spec_existing_text(a.path, s.target)->Ok_0;
    lemma_upsert_idempotent(t, c);
    let sc = o.sidecar->Some_0;
    assert(apply::with_hash(sc, c) == sc);
}

/// Law: `status` looks only at the block's content. Two versions of a
/// managed file whose blocks hold the same content, whatever surrounds them,
/// get the same report.
pub proof fn lemma_status_ignores_outside_edits(
    path: Seq<char>,
    t1: Seq<char>,
    t2: Seq<char>,
    sc: SidecarStateView,
    from_file: FileStateView,
)
    requires
        spec_find(t1) matches Ok(Some(b1)) && spec_find(t2) matches Ok(Some(b2)) && b1.content
            == b2.content,
    ensures
        status::spec_run(
            path,
            SnapshotView { target: FileStateView::Read(t1), sidecar: sc, from_file },
        ) == status::spec_run(
            path,
            SnapshotView { target: FileStateView::Read(t2), sidecar: sc, from_file },
        ),
{
}

/// A listing of block content: the content, ended by a line break, or
/// `(empty)` when there is none.
pub open spec fn listing(c: Seq<char>) -> Seq<char> {
    if c.len() == 0 {
        "(empty)\n"@
    } else if c.last() == '\n' {
        c
    } else {
        c + "\n"@
    }
}

/// What a status report says after the file's path.
pub open spec fn status_text(s: StatusState) -> Seq<char> {
    match s {
        StatusState::Clean => ": clean\n"@,
        StatusState::Drift => ": DRIFT (managed block changed since the last apply)\n"@,
        StatusState::BlockMissing => ": DRIFT (managed block is missing)\n"@,
        StatusState::NotManaged => ": not managed (no sidecar)\n"@,
    }
}

/// The text that a successful command prints.
pub open spec fn report_text(r: ReportView) -> Seq<char> {
    match r {
        ReportView::Initialized(p, n) => "rio: initialized "@ + p + " ("@ + decimal(n as nat)
            + " bytes managed)\n"@,
        ReportView::Applied(p) => "rio: applied "@ + p + " (block hash updated)\n"@,
        ReportView::Unchanged(p) => p + ": no changes\n"@,
        ReportView::Changes(p, cur, prop) => "=== current block ("@ + p + ") ===\n"@ + listing(cur)
            + "=== proposed block ===\n"@ + listing(prop),
        ReportView::Status(p, st) => p + status_text(st),
    }
}

/// What is wrong with a managed block, in words.
pub open spec fn block_error_text(e: BlockError) -> Seq<char> {
    match e {
        BlockError::DuplicateOpen => "more than one opening marker"@,
        BlockError::DuplicateClose => "more than one closing marker"@,
        BlockError::OrphanOpen => "opening marker without a closing marker"@,
        BlockError::OrphanClose => "closing marker without an opening marker"@,
        BlockError::CloseBeforeOpen => "closing marker before the opening marker"@,
        BlockError::MarkerInContent => "the content holds a block marker line"@,
    }
}

/// The message of a failed command.
pub open spec fn error_text(e: CliErrorView) -> Seq<char> {
    match e {
        CliErrorView::SidecarExists(p) => "sidecar already exists at "@ + p
            + "; use `rio apply` to reconcile"@,
        CliErrorView::MissingContent => "one of --content or --from is required"@,
        CliErrorView::ConflictingContent => "--content and --from cannot be used together"@,
        CliErrorView::Read(p, m) => "reading "@ + p + ": "@ + m,
        CliErrorView::Block(b) => "malformed managed block: "@ + block_error_text(b),
        CliErrorView::Sidecar(p, m) => "loading sidecar "@ + p + ": "@ + m,
    }
}

/// Appends the listing of `c` to `out`.
fn push_listing(out: &mut String, c: &String)
    ensures
        final(out)@ == old(out)@ + listing(c@),
{
    if c.as_str().is_empty() {
        out.append("(empty)\n");
    } else {
        out.append(c.as_str());
        if !ends_with_newline(c.as_str()) {
            out.append("\n");
        }
    }
}

fn block_error_string(e: BlockError) -> (t: String)
    ensures
        t@ == block_error_text(e),
{
    match e {
        BlockError::DuplicateOpen => String::from_str("more than one opening marker"),
        BlockError::DuplicateClose => String::from_str("more than one closing marker"),
        BlockError::OrphanOpen => String::from_str("opening marker without a closing marker"),
        BlockError::OrphanClose => String::from_str("closing marker without an opening marker"),
        BlockError::CloseBeforeOpen => String::from_str("closing marker before the opening marker"),
        BlockError::MarkerInContent => String::from_str("the content holds a block marker line"),
    }
}

impl Report {
    /// The text to print for this report, ending with a line break.
    pub fn text(&self) -> (t: String)
        ensures
            t@ == report_text(self@),
    {
        match self {
            Report::Initialized { path, managed_bytes } => {
                let mut t = String::from_str("rio: initialized ");
                t.append(path.as_str());
                t.append(" (");
                push_decimal(&mut t, *managed_bytes);
                t.append(" bytes managed)\n");
                t
            },
            Report::Applied { path } => {
                let mut t = String::from_str("rio: applied ");
                t.append(path.as_str());
                t.append(" (block hash updated)\n");
                t
            },
            Report::Unchanged { path } => {
                let mut t = path.clone();
                t.append(": no changes\n");
                t
            },
            Report::Changes { path, current, proposed } => {
                let mut t = String::from_str("=== current block (");
                t.append(path.as_str());
                t.append(") ===\n");
                push_listing(&mut t, current);
                t.append("=== proposed block ===\n");
                push_listing(&mut t, proposed);
                t
            },
            Report::Status { path, state } => {
                let mut t = path.clone();
                match state {
                    StatusState::Clean => t.append(": clean\n"),
                    StatusState::Drift => t.append(
                        ": DRIFT (managed block changed since the last apply)\n",
                    ),
                    StatusState::BlockMissing => t.append(": DRIFT (managed block is missing)\n"),
                    StatusState::NotManaged => t.append(": not managed (no sidecar)\n"),
                }
                t
            },
        }
    }
}

impl CliError {
    /// The message to report for this error.
    pub fn text(&self) -> (t: String)
        ensures
            t@ == error_text(self@),
    {
        match self {
            CliError::SidecarExists { sidecar_path } => {
                let mut t = String::from_str("sidecar already exists at ");
                t.append(sidecar_path.as_str());
                t.append("; use `rio apply` to reconcile");
                t
            },
            CliError::MissingContent => String::from_str("one of --content or --from is required"),
            CliError::ConflictingContent => String::from_str(
                "--content and --from cannot be used together",
            ),
            CliError::Read { path, message } => {
                let mut t = String::from_str("reading ");
                t.append(path.as_str());
                t.append(": ");
                t.append(message.as_str());
                t
            },
            CliError::Block(b) => {
                let mut t = String::from_str("malformed managed block: ");
                let b = block_error_string(*b);
                t.append(b.as_str());
                t
            },
            CliError::Sidecar { path, message } => {
                let mut t = String::from_str("loading sidecar ");
                t.append(path.as_str());
                t.append(": ");
                t.append(message.as_str());
                t
            },
        }
    }
}

/// Law: `status` on a managed file whose block is found reports clean
/// exactly when the sidecar records the hash of the block's whole content,
/// and drift otherwise.
pub proof fn law_status_clean_iff_hash_matches(
    path: Seq<char>,
    t: Seq<char>,
    sc: SidecarView,
    from_file: FileStateView,
)
    requires
        spec_find(t) matches Ok(Some(_)),
    ensures
        ({
            let b = spec_find(t)->Ok_0->Some_0;
            let r = status::spec_run(
                path,
                SnapshotView { target: FileStateView::Read(t), sidecar: SidecarStateView::Loaded(sc), from_file },
            ).result;
            &&& r == Ok::<ReportView, CliErrorView>(ReportView::Status(path, StatusState::Clean))
                || r == Ok::<ReportView, CliErrorView>(ReportView::Status(path, StatusState::Drift))
            &&& r == Ok::<ReportView, CliErrorView>(ReportView::Status(path, StatusState::Clean))
                <==> sc.managed_block_hash == Some(crate::sidecar::spec_hash_block(b.content))
        }),
{
}

/// Law: after `init` or `apply` wrote content `c`, a file whose block now
/// holds content with another hash is reported as drifted.
pub proof fn law_status_drift_after_edit(
    a: ArgsView,
    s: SnapshotView,
    edited: Seq<char>,
    from_file: FileStateView,
)
    requires
        init::spec_run(a, s).result is Ok || apply::spec_run(a, s).result is Ok,
        spec_find(edited) matches Ok(Some(b)) && crate::sidecar::spec_hash_block(b.content)
            != crate::sidecar::spec_hash_block(spec_resolve_content(a, s.from_file)->Ok_0),
    ensures
        init::spec_run(a, s).result is Ok ==> status::spec_run(
            a.path,
            SnapshotView {
                target: FileStateView::Read(edited),
                sidecar: SidecarStateView::Loaded(init::spec_run(a, s).sidecar->Some_0),
                from_file,
            },
        ).result == Ok::<ReportView, CliErrorView>(ReportView::Status(a.path, StatusState::Drift)),
        apply::spec_run(a, s).result is Ok ==> status::spec_run(
            a.path,
            SnapshotView {
                target: FileStateView::Read(edited),
                sidecar: SidecarStateView::Loaded(apply::spec_run(a, s).sidecar->Some_0),
                from_file,
            },
        ).result == Ok::<ReportView, CliErrorView>(ReportView::Status(a.path, StatusState::Drift)),
{
    if init::spec_run(a, s).result is Ok {
        lemma_written_block(a, s, init::spec_run(a, s));
    }
    if apply::spec_run(a, s).result is Ok {
        lemma_written_block(a, s, apply::spec_run(a, s));
    }
}

/// Law: `diff` reports no changes exactly when the block's current content
/// (empty without a block) equals the proposed content, which is exactly
/// when applying it would leave the block's content as it is; otherwise it
/// reports both contents.
pub proof fn law_diff_unchanged_iff_equal(a: ArgsView, s: SnapshotView)
    requires
        spec_resolve_content(a, s.from_file) is Ok,
        spec_existing_text(a.path, s.target) is Ok,
        spec_find(spec_existing_text(a.path, s.target)->Ok_0) is Ok,
    ensures
        ({
            let c = spec_resolve_content(a, s.from_file)->Ok_0;
            let t = spec_existing_text(a.path, s.target)->Ok_0;
            let cur = match spec_find(t)->Ok_0 {
                Some(b) => b.content,
                None => Seq::<char>::empty(),
            };
            let r = diff::spec_run(a, s).result;
            &&& r == Ok::<ReportView, CliErrorView>(ReportView::Unchanged(a.path)) <==> cur == c
            &&& cur != c ==> r == Ok::<ReportView, CliErrorView>(ReportView::Changes(a.path, cur, c))
            &&& spec_upsert(t, c) is Ok ==> (r == Ok::<ReportView, CliErrorView>(
                ReportView::Unchanged(a.path),
            ) <==> (spec_find(spec_upsert(t, c)->Ok_0) matches Ok(Some(b2)) && b2.content == cur))
        }),
{
    let c = spec_resolve_content(a, s.from_file)->Ok_0;
    let t = spec_existing_text(a.path, s.target)->Ok_0;
    if spec_upsert(t, c) is Ok {
        lemma_find_after_upsert(t, c);
    }
}

/// Law: `apply` succeeds whenever its content resolves, the file reads, the
/// block can be written and the sidecar is absent or loads, whatever hash the
/// sidecar records. It writes the upserted file and records the content's
/// hash, keeping the rest of a loaded sidecar.
pub proof fn law_apply_succeeds(a: ArgsView, s: SnapshotView)
    requires
        spec_resolve_content(a, s.from_file) is Ok,
        spec_existing_text(a.path, s.target) is Ok,
        spec_upsert(
            spec_existing_text(a.path, s.target)->Ok_0,
            spec_resolve_content(a, s.from_file)->Ok_0,
        ) is Ok,
        !(s.sidecar is Failed),
    ensures
        ({
            let c = spec_resolve_content(a, s.from_file)->Ok_0;
            let t = spec_existing_text(a.path, s.target)->Ok_0;
            let o = apply::spec_run(a, s);
            &&& o.result == Ok::<ReportView, CliErrorView>(ReportView::Applied(a.path))
            &&& o.target_text == Some(spec_upsert(t, c)->Ok_0)
            &&& o.sidecar matches Some(sc2) && sc2.managed_block_hash == Some(
                crate::sidecar::spec_hash_block(c),
            )
            &&& s.sidecar matches SidecarStateView::Loaded(sc) ==> o.sidecar->Some_0.version
                == sc.version && o.sidecar->Some_0.ignored == sc.ignored
        }),
{
}

/// Law: `init` refuses with `SidecarExists` exactly when a sidecar exists, and
/// succeeds whenever there is none and its content resolves, the file reads
/// and the block can be written, whatever the file holds: it writes the
/// upserted file and a fresh sidecar that records the content's hash.
pub proof fn law_init_succeeds(a: ArgsView, s: SnapshotView)
    ensures
        init::spec_run(a, s).result matches Err(CliErrorView::SidecarExists(_)) <==> !(s.sidecar is Absent),
        ({
            let c = spec_resolve_content(a, s.from_file)->Ok_0;
            let t = spec_existing_text(a.path, s.target)->Ok_0;
            let o = init::spec_run(a, s);
            (s.sidecar is Absent && spec_resolve_content(a, s.from_file) is Ok && spec_existing_text(a.path, s.target) is Ok && spec_upsert(t, c) is Ok) ==> {
                &&& o.result == Ok::<ReportView, CliErrorView>(
                    ReportView::Initialized(a.path, vstd::utf8::encode_utf8(c).len() as usize),
                )
                &&& o.target_text == Some(spec_upsert(t, c)->Ok_0)
                &&& o.sidecar == Some(
                    SidecarView {
                        version: crate::sidecar::SIDECAR_VERSION,
                        managed_block_hash: Some(crate::sidecar::spec_hash_block(c)),
                        ignored: Seq::empty(),
                    },
                )
            }
        }),
{
}

} // verus!
