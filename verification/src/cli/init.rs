//! `init`: bring a file under management.
use crate::block::{spec_upsert, upsert};
use crate::cli::{
    ArgsView, CliError, CliErrorView, Outcome, OutcomeView, Report, ReportView, Snapshot,
    SidecarState, SnapshotView, existing_text, failed, opt_view,
    resolve_content, spec_existing_text, spec_resolve_content,
};
use crate::sidecar::{
    Sidecar, SidecarView, SIDECAR_VERSION, hash_block, path_for, spec_hash_block, spec_path_for,
};
use vstd::prelude::*;
use vstd::utf8::encode_utf8;

verus! {

/// Bootstrap a managed file with the managed block. Fails if the sidecar
/// already exists: `apply` reconciles an already-managed file.
#[derive(Debug, Clone, PartialEq, Eq)]
pub struct Args {
    /// Path to the file to bring under management.
    pub path: String,
    /// Inline content for the managed block.
    pub content: Option<String>,
    /// Read the managed block content from this file.
    pub from: Option<String>,
}

impl View for Args {
    type V = ArgsView;

    open spec fn view(&self) -> ArgsView {
        ArgsView { path: self.path@, content: opt_view(self.content), from: opt_view(self.from) }
    }
}

/// What `init` decides: refuse when a sidecar exists; else write the content
/// as the file's block and save a fresh sidecar that records its hash.
pub open spec fn spec_run(a: ArgsView, s: SnapshotView) -> OutcomeView {
    if !(s.sidecar is Absent) {
        failed(CliErrorView::SidecarExists(spec_path_for(a.path)))
    } else {
        match spec_resolve_content(a, s.from_file) {
            Err(e) => failed(e),
            Ok(c) => match spec_existing_text(a.path, s.target) {
                Err(e) => failed(e),
                Ok(t) => match spec_upsert(t, c) {
                    Err(e) => failed(CliErrorView::Block(e)),
                    Ok(u) => OutcomeView {
                        target_text: Some(u),
                        sidecar: Some(
                            SidecarView {
                                version: SIDECAR_VERSION,
                                managed_block_hash: Some(spec_hash_block(c)),
                                ignored: Seq::empty(),
                            },
                        ),
                        result: Ok(ReportView::Initialized(a.path, encode_utf8(c).len() as usize)),
                    },
                },
            },
        }
    }
}

/// Runs `init` on what was read from disk.
pub fn run(args: &Args, snapshot: &Snapshot) -> (o: Outcome)
    ensures
        o@ == spec_run(args@, snapshot@),
{
    match snapshot.sidecar {
        SidecarState::Absent => {},
        _ => {
            let e = CliError::SidecarExists { sidecar_path: path_for(args.path.as_str()) };
            return Outcome { target_text: None, sidecar: None, result: Err(e) };
        },
    }
    let content = match resolve_content(&args.content, &args.from, &snapshot.from_file) {
        Ok(c) => c,
        Err(e) => return Outcome { target_text: None, sidecar: None, result: Err(e) },
    };
    let existing = match existing_text(&args.path, &snapshot.target) {
        Ok(t) => t,
        Err(e) => return Outcome { target_text: None, sidecar: None, result: Err(e) },
    };
    let updated = match upsert(existing.as_str(), content.as_str()) {
        Ok(u) => u,
        Err(e) => return Outcome { target_text: None, sidecar: None, result: Err(CliError::Block(e)) },
    };
    let mut sc = Sidecar::default();
    sc.managed_block_hash = Some(hash_block(content.as_str()));
    let report = Report::Initialized { path: args.path.clone(), managed_bytes: content.as_str().len() };
    let o = Outcome { target_text: Some(updated), sidecar: Some(sc), result: Ok(report) };
    assert(o@.sidecar == Some(
        SidecarView {
            version: SIDECAR_VERSION,
            managed_block_hash: Some(spec_hash_block(content@)),
            ignored: Seq::<Seq<char>>::empty(),
        },
    ));
    o
}

} // verus!
