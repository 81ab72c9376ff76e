//! The pages the presentation layer serves: the index of monitored
//! repositories and the per-repository snapshot page.

use crate::store::{Snapshot, SnapshotStore, SnapshotView};
use vstd::prelude::*;
use vstd::string::StringExecFns;

verus! {

/// How a response body should be served.
#[derive(Clone, Copy, Debug, PartialEq, Eq, Structural)]
pub enum PageKind {
    Html,
    Plain,
}

/// One index entry: a link to the repository's page.
pub open spec fn spec_index_entry(repo: Seq<char>) -> Seq<char> {
    "<li><a href=\"/"@ + repo + "\">"@ + repo + "</a></li>\n"@
}

/// The index entries for the repositories from index `i` on, in order.
pub open spec fn spec_index_entries(repos: Seq<Seq<char>>, i: int) -> Seq<char>
    decreases repos.len() - i,
{
    if i < 0 || i >= repos.len() {
        Seq::empty()
    } else {
        spec_index_entry(repos[i]) + spec_index_entries(repos, i + 1)
    }
}

/// The index page listing every repository that has a snapshot, each linking
/// to its page.
pub open spec fn spec_index_page(repos: Seq<Seq<char>>) -> Seq<char> {
    "<html><body><h1>Monitored GitHub Repositories</h1><hr/><ul>\n"@ + spec_index_entries(repos, 0)
        + "</ul></body></html>"@
}

/// The body served for a snapshot: the rendered page when the last fetch
/// succeeded, the failure text when it failed.
pub open spec fn spec_snapshot_body(s: SnapshotView) -> Seq<char> {
    match s {
        SnapshotView::Ready { rendered_body, .. } => rendered_body,
        SnapshotView::Failed { reason } => reason,
    }
}

/// Builds the index page for the given repository identifiers, in order.
#[verifier::loop_isolation(false)]
pub fn index_page(repos: &Vec<String>) -> (out: String)
    ensures
        out@ == spec_index_page(repos.deep_view()),
{
    let ghost rv = repos.deep_view();
    let mut out = String::new();
    out.append("<html><body><h1>Monitored GitHub Repositories</h1><hr/><ul>\n");
    let mut i: usize = 0;
    while i < repos.len()
        invariant
            0 <= i <= repos.len(),
            out@ + spec_index_entries(rv, i as int) == "<html><body><h1>Monitored GitHub Repositories</h1><hr/><ul>\n"@
                + spec_index_entries(rv, 0),
        decreases repos.len() - i,
    {
        let ghost before = out@;
        out.append("<li><a href=\"/");
        out.append(repos[i].as_str());
        out.append("\">");
        out.append(repos[i].as_str());
        out.append("</a></li>\n");
        proof {
            assert(out@ + spec_index_entries(rv, i + 1) =~= before + spec_index_entries(
                rv,
                i as int,
            ));
        }
        i += 1;
    }
    out.append("</ul></body></html>");
    proof {
        assert(out@ =~= spec_index_page(rv));
    }
    out
}

/// The body stored in `snap`, as served.
fn snapshot_body(snap: &Snapshot) -> (r: &String)
    ensures
        r@ == spec_snapshot_body(snap.deep_view()),
{
    match snap {
        Snapshot::Ready { rendered_body, .. } => rendered_body,
        Snapshot::Failed { reason } => reason,
    }
}

/// Answers `GET /{org}/{repo}`: the current snapshot body for `org/repo`
/// when one exists (served as HTML, whether the snapshot is `Ready` or
/// `Failed`), and the fixed plain-text "Unknown repository" response when
/// the repository has no snapshot yet.
pub fn repo_page(store: &SnapshotStore, org: &str, repo: &str) -> (r: (PageKind, String))
    requires
        store.wf(),
    ensures
        store@.contains_key(org@ + "/"@ + repo@) ==> r.0 == PageKind::Html && r.1@
            == spec_snapshot_body(store@[org@ + "/"@ + repo@]),
        !store@.contains_key(org@ + "/"@ + repo@) ==> r.0 == PageKind::Plain && r.1@
            == "Unknown repository"@,
{
    let mut key: String = org.to_owned();
    key.append("/");
    key.append(repo);
    proof {
        assert(key@ == org@ + "/"@ + repo@);
    }
    match store.get(&key) {
        Some(snap) => {
            let body = snapshot_body(snap).clone();
            (PageKind::Html, body)
        },
        None => (PageKind::Plain, "Unknown repository".to_owned()),
    }
}

} // verus!
