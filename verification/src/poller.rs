//! One poll cycle's publication decision. The caller runs the cycle itself
//! (it invokes the external fetch process, measures the elapsed time and
//! takes the timestamp); this module decides, from the cycle's outcome, what
//! the snapshot store receives:
//!
//! - a failed fetch process publishes a `Failed` snapshot carrying the exit
//!   status description;
//! - a payload that does not decode publishes nothing, so the prior
//!   snapshot, if any, stays visible (stale data over no data);
//! - a decoded record list publishes a `Ready` snapshot with the rendered
//!   forest.

use crate::forest::{pr_to_html, spec_render};
use crate::numfmt::{decimal_string, spec_decimal};
use crate::record::{decode_prs, decoded_pr, raw_prs_complete, PrRecord, PrView, RawPr, RawPrView};
use crate::store::{Snapshot, SnapshotStore, SnapshotView};
use vstd::prelude::*;
use vstd::string::StringExecFns;

verus! {

/// What one poll cycle came back with: the fetch process failed with a
/// status, its payload was not even a list of records, or a list of raw
/// records (each still to be validated).
pub enum FetchOutcome {
    ProcessFailed { status_desc: String },
    Malformed,
    Fetched { raws: Vec<RawPr> },
}

/// Spec-level image of a [`FetchOutcome`].
pub ghost enum FetchOutcomeView {
    ProcessFailed { status_desc: Seq<char> },
    Malformed,
    Fetched { raws: Seq<RawPrView> },
}

impl DeepView for FetchOutcome {
    type V = FetchOutcomeView;

    open spec fn deep_view(&self) -> FetchOutcomeView {
        match self {
            FetchOutcome::ProcessFailed { status_desc } => FetchOutcomeView::ProcessFailed {
                status_desc: status_desc@,
            },
            FetchOutcome::Malformed => FetchOutcomeView::Malformed,
            FetchOutcome::Fetched { raws } => FetchOutcomeView::Fetched {
                raws: raws.deep_view(),
            },
        }
    }
}

/// The body published when the fetch process exits with a failure status.
pub open spec fn spec_failure_body(status_desc: Seq<char>) -> Seq<char> {
    "gh cli command exited with code "@ + status_desc
}

/// The page body published for a successful cycle: heading, rendered forest
/// rooted at the trunk branch `"main"`, timestamp and render duration.
pub open spec fn spec_repo_body(
    repo: Seq<char>,
    records: Seq<PrView>,
    generated_at: Seq<char>,
    duration_ms: u64,
) -> Seq<char> {
    "<html><body><h1>"@ + repo + "</h1></hr>"@ + spec_render(records, "main"@, 0)
        + "<hr/>Last updated: "@ + generated_at + "<br/>Generated in "@ + spec_decimal(
        duration_ms as nat,
    ) + "ms</body><html>"@
}

/// What one cycle does to the store's mapping: a process failure replaces
/// the repository's snapshot with `Failed`; an undecodable payload leaves
/// the mapping untouched; a complete record list replaces the snapshot with
/// `Ready`. Other repositories are never touched.
pub open spec fn spec_poll_step(
    m: Map<Seq<char>, SnapshotView>,
    repo: Seq<char>,
    outcome: FetchOutcomeView,
    generated_at: Seq<char>,
    duration_ms: u64,
) -> Map<Seq<char>, SnapshotView> {
    match outcome {
        FetchOutcomeView::ProcessFailed { status_desc } => m.insert(
            repo,
            SnapshotView::Failed { reason: spec_failure_body(status_desc) },
        ),
        FetchOutcomeView::Malformed => m,
        FetchOutcomeView::Fetched { raws } => if raw_prs_complete(raws) {
            m.insert(
                repo,
                SnapshotView::Ready {
                    rendered_body: spec_repo_body(
                        repo,
                        raws.map_values(|p: RawPrView| decoded_pr(p)),
                        generated_at,
                        duration_ms,
                    ),
                    generated_at,
                    render_duration_ms: duration_ms,
                },
            )
        } else {
            m
        },
    }
}

/// Builds the page body for a successful cycle.
fn repo_body(
    repo: &String,
    records: &Vec<PrRecord>,
    generated_at: &String,
    duration_ms: u64,
) -> (r: String)
    ensures
        r@ == spec_repo_body(repo@, records.deep_view(), generated_at@, duration_ms),
{
    let mut out = String::new();
    out.append("<html><body><h1>");
    out.append(repo.as_str());
    out.append("</h1></hr>");
    let forest = pr_to_html(records, "main", 0);
    out.append(forest.as_str());
    out.append("<hr/>Last updated: ");
    out.append(generated_at.as_str());
    out.append("<br/>Generated in ");
    let ms = decimal_string(duration_ms);
    out.append(ms.as_str());
    out.append("ms</body><html>");
    proof {
        assert(out@ =~= spec_repo_body(repo@, records.deep_view(), generated_at@, duration_ms));
    }
    out
}

/// Applies one cycle's outcome for `repo` to the store: exactly
/// [`spec_poll_step`] of the prior mapping. In particular a process failure
/// always publishes, an undecodable outcome never does, and a complete
/// record list publishes the freshly rendered page.
pub fn poll_step(
    store: &mut SnapshotStore,
    repo: &String,
    outcome: FetchOutcome,
    generated_at: String,
    duration_ms: u64,
)
    requires
        old(store).wf(),
    ensures
        final(store).wf(),
        final(store)@ == spec_poll_step(
            old(store)@,
            repo@,
            outcome.deep_view(),
            generated_at@,
            duration_ms,
        ),
{
    match outcome {
        FetchOutcome::ProcessFailed { status_desc } => {
            let mut reason = String::new();
            reason.append("gh cli command exited with code ");
            reason.append(status_desc.as_str());
            store.put(repo.clone(), Snapshot::Failed { reason });
        },
        FetchOutcome::Malformed => {},
        FetchOutcome::Fetched { raws } => {
            match decode_prs(&raws) {
                Ok(records) => {
                    let body = repo_body(repo, &records, &generated_at, duration_ms);
                    store.put(
                        repo.clone(),
                        Snapshot::Ready {
                            rendered_body: body,
                            generated_at,
                            render_duration_ms: duration_ms,
                        },
                    );
                },
                Err(_) => {},
            }
        },
    }
}

/// A failure is visible but never sticky: a failed fetch publishes a
/// `Failed` snapshot for the repository, and a subsequent successful cycle
/// replaces it with a `Ready` one.
pub proof fn lemma_failure_then_success_recovers(
    m: Map<Seq<char>, SnapshotView>,
    repo: Seq<char>,
    status_desc: Seq<char>,
    raws: Seq<RawPrView>,
    at1: Seq<char>,
    ms1: u64,
    at2: Seq<char>,
    ms2: u64,
)
    requires
        raw_prs_complete(raws),
    ensures
        spec_poll_step(
            m,
            repo,
            FetchOutcomeView::ProcessFailed { status_desc },
            at1,
            ms1,
        )[repo] is Failed,
        spec_poll_step(
            spec_poll_step(m, repo, FetchOutcomeView::ProcessFailed { status_desc }, at1, ms1),
            repo,
            FetchOutcomeView::Fetched { raws },
            at2,
            ms2,
        )[repo] is Ready,
{
}

/// The staleness-preferred policy: a cycle whose payload does not decode —
/// whether it was not a record list at all, or a record in it was
/// incomplete — changes nothing, so whatever snapshot each repository had
/// before, `Ready` or `Failed`, it still has.
pub proof fn lemma_decode_failure_keeps_store(
    m: Map<Seq<char>, SnapshotView>,
    repo: Seq<char>,
    raws: Seq<RawPrView>,
    at: Seq<char>,
    ms: u64,
)
    requires
        !raw_prs_complete(raws),
    ensures
        spec_poll_step(m, repo, FetchOutcomeView::Fetched { raws }, at, ms) == m,
        spec_poll_step(m, repo, FetchOutcomeView::Malformed, at, ms) == m,
{
}

} // verus!
