//! `status`: report drift between a managed block and its sidecar.
use crate::block::{find, spec_find};
use crate::cli::{
    CliError, CliErrorView, Outcome, OutcomeView, Report, ReportView, SidecarState,
    SidecarStateView, Snapshot, SnapshotView, StatusState, existing_text, failed,
    spec_existing_text,
};
use crate::sidecar::{hash_block, path_for, spec_hash_block, spec_path_for};
use vstd::prelude::*;

verus! {

/// Show drift between the managed block and the current file state.
#[derive(Debug, Clone, PartialEq, Eq)]
pub struct Args {
    /// Path to the managed file.
    pub path: String,
}

impl View for Args {
    type V = Seq<char>;

    open spec fn view(&self) -> Seq<char> {
        self.path@
    }
}

/// A successful outcome that writes nothing.
pub open spec fn reported(r: ReportView) -> OutcomeView {
    OutcomeView { target_text: None, sidecar: None, result: Ok(r) }
}

/// What `status` decides: a file without a sidecar is not managed; else the
/// block's content is clean when it hashes to the recorded hash, drifted when
/// it does not, and a missing block is reported as such. Writes nothing.
pub open spec fn spec_run(path: Seq<char>, s: SnapshotView) -> OutcomeView {
    match s.sidecar {
        SidecarStateView::Absent => reported(ReportView::Status(path, StatusState::NotManaged)),
        SidecarStateView::Failed(m) => failed(CliErrorView::Sidecar(spec_path_for(path), m)),
        SidecarStateView::Loaded(sc) => match spec_existing_text(path, s.target) {
            Err(e) => failed(e),
            Ok(t) => match spec_find(t) {
                Err(e) => failed(CliErrorView::Block(e)),
                Ok(None) => reported(ReportView::Status(path, StatusState::BlockMissing)),
                Ok(Some(b)) => reported(
                    ReportView::Status(
                        path,
                        if sc.managed_block_hash == Some(spec_hash_block(b.content)) {
                            StatusState::Clean
                        } else {
                            StatusState::Drift
                        },
                    ),
                ),
            },
        },
    }
}

/// Runs `status` on what was read from disk.
pub fn run(args: &Args, snapshot: &Snapshot) -> (o: Outcome)
    ensures
        o@ == spec_run(args@, snapshot@),
{
    let sc = match &snapshot.sidecar {
        SidecarState::Absent => {
            let report = Report::Status { path: args.path.clone(), state: StatusState::NotManaged };
            return Outcome { target_text: None, sidecar: None, result: Ok(report) };
        },
        SidecarState::Failed(m) => {
            let e = CliError::Sidecar { path: path_for(args.path.as_str()), message: m.clone() };
            return Outcome { target_text: None, sidecar: None, result: Err(e) };
        },
        SidecarState::Loaded(sc) => sc,
    };
    let text = match existing_text(&args.path, &snapshot.target) {
        Ok(t) => t,
        Err(e) => return Outcome { target_text: None, sidecar: None, result: Err(e) },
    };
    let state = match find(text.as_str()) {
        Err(e) => return Outcome { target_text: None, sidecar: None, result: Err(CliError::Block(e)) },
        Ok(None) => StatusState::BlockMissing,
        Ok(Some(b)) => {
            let actual = hash_block(b.content.as_str());
            match &sc.managed_block_hash {
                Some(recorded) => if *recorded == actual {
                    StatusState::Clean
                } else {
                    StatusState::Drift
                },
                None => StatusState::Drift,
            }
        },
    };
    let report = Report::Status { path: args.path.clone(), state };
    Outcome { target_text: None, sidecar: None, result: Ok(report) }
}

} // verus!
