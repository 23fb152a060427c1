//! `apply`: reconcile a managed file with the content it should hold.
use crate::block::{spec_upsert, upsert};
use crate::cli::{
    ArgsView, CliError, CliErrorView, Outcome, OutcomeView, Report, ReportView, Snapshot,
    SidecarState, SidecarStateView, SnapshotView, existing_text, failed, opt_view,
    resolve_content, spec_existing_text, spec_resolve_content,
};
use crate::sidecar::{
    Sidecar, SidecarView, default_sidecar, hash_block, path_for, spec_hash_block, spec_path_for,
};
use vstd::prelude::*;

verus! {

/// Reconcile a managed file: replace the block with the provided content and
/// update the sidecar's hash. Idempotent.
#[derive(Debug, Clone, PartialEq, Eq)]
pub struct Args {
    pub path: String,
    pub content: Option<String>,
    pub from: Option<String>,
}

impl View for Args {
    type V = ArgsView;

    open spec fn view(&self) -> ArgsView {
        ArgsView { path: self.path@, content: opt_view(self.content), from: opt_view(self.from) }
    }
}

/// `sc` with the hash of `c` recorded.
pub open spec fn with_hash(sc: SidecarView, c: Seq<char>) -> SidecarView {
    SidecarView { managed_block_hash: Some(spec_hash_block(c)), ..sc }
}

/// What `apply` decides: write the content as the file's block, then record
/// its hash in the sidecar (a fresh one when there is none). A sidecar that
/// cannot be loaded fails the command after the file was written.
pub open spec fn spec_run(a: ArgsView, s: SnapshotView) -> OutcomeView {
    match spec_resolve_content(a, s.from_file) {
        Err(e) => failed(e),
        Ok(c) => match spec_existing_text(a.path, s.target) {
            Err(e) => failed(e),
            Ok(t) => match spec_upsert(t, c) {
                Err(e) => failed(CliErrorView::Block(e)),
                Ok(u) => match s.sidecar {
                    SidecarStateView::Failed(m) => OutcomeView {
                        target_text: Some(u),
                        sidecar: None,
                        result: Err(CliErrorView::Sidecar(spec_path_for(a.path), m)),
                    },
                    SidecarStateView::Absent => OutcomeView {
                        target_text: Some(u),
                        sidecar: Some(with_hash(default_sidecar(), c)),
                        result: Ok(ReportView::Applied(a.path)),
                    },
                    SidecarStateView::Loaded(sc) => OutcomeView {
                        target_text: Some(u),
                        sidecar: Some(with_hash(sc, c)),
                        result: Ok(ReportView::Applied(a.path)),
                    },
                },
            },
        },
    }
}

/// Runs `apply` on what was read from disk.
pub fn run(args: &Args, snapshot: &Snapshot) -> (o: Outcome)
    ensures
        o@ == spec_run(args@, snapshot@),
{
    let content = match resolve_content(&args.content, &args.from, &snapshot.from_file) {
        Ok(c) => c,
        Err(e) => return Outcome { target_text: None, sidecar: None, result: Err(e) },
    };
    let existing = match existing_text(&args.path, &snapshot.target) {
        Ok(t) => t,
        Err(e) => return Outcome { target_text: None, sidecar: None, result: Err(e) },
    };
    let updated = match upsert(existing.as_str(), content.as_str()) {
        Ok(u) => u,
        Err(e) => return Outcome { target_text: None, sidecar: None, result: Err(CliError::Block(e)) },
    };
    let mut sc = match &snapshot.sidecar {
        SidecarState::Failed(m) => {
            let e = CliError::Sidecar { path: path_for(args.path.as_str()), message: m.clone() };
            return Outcome { target_text: Some(updated), sidecar: None, result: Err(e) };
        },
        SidecarState::Absent => Sidecar::default(),
        SidecarState::Loaded(loaded) => Sidecar {
            version: loaded.version,
            managed_block_hash: clone_opt(&loaded.managed_block_hash),
            ignored: clone_strings(&loaded.ignored),
        },
    };
    sc.managed_block_hash = Some(hash_block(content.as_str()));
    let o = Outcome {
        target_text: Some(updated),
        sidecar: Some(sc),
        result: Ok(Report::Applied { path: args.path.clone() }),
    };
    o
}

fn clone_opt(s: &Option<String>) -> (r: Option<String>)
    ensures
        opt_view(r) == opt_view(*s),
{
    match s {
        Some(x) => Some(x.clone()),
        None => None,
    }
}

/// Copies a list of strings.
fn clone_strings(v: &Vec<String>) -> (r: Vec<String>)
    ensures
        r@.map_values(|s: String| s@) == v@.map_values(|s: String| s@),
{
    let mut out: Vec<String> = Vec::new();
    let mut i: usize = 0;
    while i < v.len()
        invariant
            i <= v@.len(),
            out@.len() == i,
            forall|j: int| 0 <= j < i ==> out@[j]@ == v@[j]@,
        decreases v@.len() - i,
    {
        out.push(v[i].clone());
        i += 1;
    }
    assert(out@.map_values(|s: String| s@) =~= v@.map_values(|s: String| s@));
    out
}

} // verus!
