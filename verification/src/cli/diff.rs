//! `diff`: show what `apply` would change in the managed block.
use crate::block::{find, spec_find};
use crate::cli::{
    ArgsView, CliError, CliErrorView, Outcome, OutcomeView, Report, ReportView, Snapshot,
    SnapshotView, existing_text, failed, opt_view, resolve_content, spec_existing_text,
    spec_resolve_content,
};
use vstd::prelude::*;

verus! {

/// Show what `apply` would change in the managed block: the current block
/// content and the proposed content, one after the other.
#[derive(Debug, Clone, PartialEq, Eq)]
pub struct Args {
    pub path: String,
    pub content: Option<String>,
    pub from: Option<String>,
}

impl View for Args {
    type V = ArgsView;

    open spec fn view(&self) -> ArgsView {
        ArgsView { path: self.path@, content: opt_view(self.content), from: opt_view(self.from) }
    }
}

/// The content of the file's block; empty when it has none.
pub open spec fn current_content(found: Option<crate::block::BlockView>) -> Seq<char> {
    match found {
        Some(b) => b.content,
        None => Seq::empty(),
    }
}

/// What `diff` decides: compare the block's current content with the
/// proposed one. Writes nothing.
pub open spec fn spec_run(a: ArgsView, s: SnapshotView) -> OutcomeView {
    match spec_resolve_content(a, s.from_file) {
        Err(e) => failed(e),
        Ok(c) => match spec_existing_text(a.path, s.target) {
            Err(e) => failed(e),
            Ok(t) => match spec_find(t) {
                Err(e) => failed(CliErrorView::Block(e)),
                Ok(found) => OutcomeView {
                    target_text: None,
                    sidecar: None,
                    result: Ok(
                        if current_content(found) == c {
                            ReportView::Unchanged(a.path)
                        } else {
                            ReportView::Changes(a.path, current_content(found), c)
                        },
                    ),
                },
            },
        },
    }
}

/// Runs `diff` on what was read from disk.
pub fn run(args: &Args, snapshot: &Snapshot) -> (o: Outcome)
    ensures
        o@ == spec_run(args@, snapshot@),
{
    let new_content = match resolve_content(&args.content, &args.from, &snapshot.from_file) {
        Ok(c) => c,
        Err(e) => return Outcome { target_text: None, sidecar: None, result: Err(e) },
    };
    let text = match existing_text(&args.path, &snapshot.target) {
        Ok(t) => t,
        Err(e) => return Outcome { target_text: None, sidecar: None, result: Err(e) },
    };
    let current = match find(text.as_str()) {
        Ok(Some(b)) => b.content,
        Ok(None) => String::new(),
        Err(e) => return Outcome { target_text: None, sidecar: None, result: Err(CliError::Block(e)) },
    };
    let report = if current == new_content {
        Report::Unchanged { path: args.path.clone() }
    } else {
        Report::Changes { path: args.path.clone(), current, proposed: new_content }
    };
    Outcome { target_text: None, sidecar: None, result: Ok(report) }
}

} // verus!
