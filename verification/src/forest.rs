//! The forest builder: turns a flat list of PR records into a nested HTML
//! list rooted at a trunk branch name. A PR is a child of another PR when
//! its base branch equals the parent's head branch; roots are the PRs whose
//! base branch equals the trunk. Siblings keep input order.
//!
//! Branch graphs are not guaranteed acyclic, so the traversal carries an
//! enforced depth cutoff ([`MAX_DEPTH`]): a level at that depth renders as
//! an empty list instead of recursing forever. The builder therefore
//! terminates on every input, cyclic or not.

use crate::numfmt::{decimal_string, spec_decimal};
use crate::record::{LabelView, PrRecord, PrView};
use vstd::prelude::*;
use vstd::string::StringExecFns;

verus! {

/// The enforced recursion cutoff: a level at this depth renders as an empty
/// list, so rendering terminates even when branch links form a cycle.
pub const MAX_DEPTH: u8 = 64;

/// The rendering of one label: a colored inline tag.
pub open spec fn spec_label(l: LabelView) -> Seq<char> {
    "&nbsp;<span style=\"font-family: arial; font-weight: bold; color: "@ + l.color + "\">"@
        + l.name + "</span>"@
}

/// The rendering of the labels from index `i` on, in input order.
pub open spec fn spec_labels(labels: Seq<LabelView>, i: int) -> Seq<char>
    decreases labels.len() - i,
{
    if i < 0 || i >= labels.len() {
        Seq::empty()
    } else {
        spec_label(labels[i]) + spec_labels(labels, i + 1)
    }
}

/// The rendering of one record's own line: number linked to its URL, author,
/// title, then its labels. Children follow separately.
pub open spec fn spec_item(r: PrView) -> Seq<char> {
    "<li>PR #<a href=\""@ + r.url + "\">"@ + spec_decimal(r.number as nat) + "</a> by "@
        + r.author_name + ": "@ + r.title + spec_labels(r.labels, 0) + "\n"@
}

/// The forest under `parent` at `depth`: the rendered `<ul>` level together
/// with the indices of the records it places, in emission order.
pub open spec fn spec_forest(records: Seq<PrView>, parent: Seq<char>, depth: u8) -> (Seq<
    char,
>, Seq<int>)
    decreases MAX_DEPTH - depth, records.len() + 1,
{
    if depth >= MAX_DEPTH {
        ("<ul>\n"@ + "</ul>\n"@, Seq::empty())
    } else {
        let sub = spec_children(records, parent, depth, 0);
        ("<ul>\n"@ + sub.0 + "</ul>\n"@, sub.1)
    }
}

/// The children of `parent` drawn from the records at index `i` on: every
/// record whose base branch equals `parent` is emitted, followed by its own
/// subtree rooted at its head branch.
pub open spec fn spec_children(records: Seq<PrView>, parent: Seq<char>, depth: u8, i: int) -> (Seq<
    char,
>, Seq<int>)
    decreases MAX_DEPTH - depth, records.len() - i,
{
    if depth >= MAX_DEPTH || i < 0 || i >= records.len() {
        (Seq::empty(), Seq::empty())
    } else if records[i].base_branch == parent {
        let sub = spec_forest(records, records[i].head_branch, (depth + 1) as u8);
        let rest = spec_children(records, parent, depth, i + 1);
        (spec_item(records[i]) + sub.0 + "</li>\n"@ + rest.0, seq![i] + sub.1 + rest.1)
    } else {
        spec_children(records, parent, depth, i + 1)
    }
}

/// The rendered HTML of the forest under `parent` at `depth`.
pub open spec fn spec_render(records: Seq<PrView>, parent: Seq<char>, depth: u8) -> Seq<char> {
    spec_forest(records, parent, depth).0
}

/// The indices of the records the forest under `parent` places, in emission
/// order.
pub open spec fn spec_emitted(records: Seq<PrView>, parent: Seq<char>, depth: u8) -> Seq<int> {
    spec_forest(records, parent, depth).1
}

/// Appends one record's own line to `out`.
#[verifier::loop_isolation(false)]
fn push_item(out: &mut String, pr: &PrRecord)
    ensures
        final(out)@ == old(out)@ + spec_item(pr.deep_view()),
{
    let ghost base = out@;
    out.append("<li>PR #<a href=\"");
    out.append(pr.url.as_str());
    out.append("\">");
    let num = decimal_string(pr.number as u64);
    out.append(num.as_str());
    out.append("</a> by ");
    out.append(pr.author_name.as_str());
    out.append(": ");
    out.append(pr.title.as_str());
    let ghost mid = out@;
    let ghost lv = pr.deep_view().labels;
    let mut j: usize = 0;
    while j < pr.labels.len()
        invariant
            0 <= j <= pr.labels.len(),
            out@ + spec_labels(lv, j as int) == mid + spec_labels(lv, 0),
        decreases pr.labels.len() - j,
    {
        let ghost before = out@;
        proof {
            assert(lv[j as int] == pr.labels@[j as int].deep_view());
        }
        out.append("&nbsp;<span style=\"font-family: arial; font-weight: bold; color: ");
        out.append(pr.labels[j].color.as_str());
        out.append("\">");
        out.append(pr.labels[j].name.as_str());
        out.append("</span>");
        proof {
            assert(out@ == before + spec_label(lv[j as int])) by {
                assert(out@ =~= before + spec_label(lv[j as int]));
            }
            assert(out@ + spec_labels(lv, j + 1) =~= before + spec_labels(lv, j as int));
        }
        j += 1;
    }
    out.append("\n");
    proof {
        assert(out@ =~= base + spec_item(pr.deep_view()));
    }
}

/// Renders the forest of `prs` under `parent` at `depth` as nested HTML
/// lists: every record whose base branch equals `parent` becomes a list
/// item, in input order, followed by the subtree rooted at its head branch
/// one level deeper. At [`MAX_DEPTH`] the level renders as an empty list.
#[verifier::loop_isolation(false)]
pub fn pr_to_html(prs: &Vec<PrRecord>, parent: &str, depth: u8) -> (out: String)
    ensures
        out@ == spec_render(prs.deep_view(), parent@, depth),
    decreases MAX_DEPTH - depth,
{
    let ghost rv = prs.deep_view();
    let mut out = String::new();
    out.append("<ul>\n");
    if depth < MAX_DEPTH {
        let parent_owned: String = parent.to_owned();
        let mut i: usize = 0;
        while i < prs.len()
            invariant
                0 <= i <= prs.len(),
                out@ + spec_children(rv, parent@, depth, i as int).0 == "<ul>\n"@ + spec_children(
                    rv,
                    parent@,
                    depth,
                    0,
                ).0,
            decreases prs.len() - i,
        {
            proof {
                assert(rv[i as int] == prs@[i as int].deep_view());
            }
            if prs[i].base_branch == parent_owned {
                let ghost before = out@;
                push_item(&mut out, &prs[i]);
                let sub = pr_to_html(prs, prs[i].head_branch.as_str(), depth + 1);
                out.append(sub.as_str());
                out.append("</li>\n");
                proof {
                    assert(out@ + spec_children(rv, parent@, depth, i + 1).0 =~= before
                        + spec_children(rv, parent@, depth, i as int).0);
                }
            }
            i += 1;
        }
    }
    out.append("</ul>\n");
    proof {
        assert(out@ =~= spec_render(rv, parent@, depth));
    }
    out
}

/// Determinism of the forest builder: two runs over the same records and the
/// same trunk yield the same rendered output. [`pr_to_html`] returns exactly
/// [`spec_render`] of its inputs, so two calls on equal inputs return equal
/// strings.
pub proof fn lemma_render_deterministic(
    records: Seq<PrView>,
    trunk: Seq<char>,
    depth: u8,
    r1: Seq<char>,
    r2: Seq<char>,
)
    requires
        r1 == spec_render(records, trunk, depth),
        r2 == spec_render(records, trunk, depth),
    ensures
        r1 == r2,
{
}

/// When no record's base branch equals `parent`, the level under `parent`
/// places no record at all.
proof fn lemma_children_none(records: Seq<PrView>, parent: Seq<char>, depth: u8, i: int)
    requires
        forall|k: int| 0 <= k < records.len() ==> (#[trigger] records[k]).base_branch != parent,
        0 <= i <= records.len(),
    ensures
        spec_children(records, parent, depth, i) == (Seq::<char>::empty(), Seq::<int>::empty()),
    decreases records.len() - i,
{
    if i < records.len() && depth < MAX_DEPTH {
        lemma_children_none(records, parent, depth, i + 1);
    }
}

/// The placements of a one-level forest, from index `i` on: when every base
/// branch equals the trunk and no head branch equals any base branch, the
/// records from `i` on are placed in input order, each exactly once.
proof fn lemma_flat_children(records: Seq<PrView>, trunk: Seq<char>, i: int)
    requires
        forall|k: int| 0 <= k < records.len() ==> (#[trigger] records[k]).base_branch == trunk,
        forall|j: int, k: int|
            0 <= j < records.len() && 0 <= k < records.len() ==> (
            #[trigger] records[j]).head_branch != (#[trigger] records[k]).base_branch,
        0 <= i <= records.len(),
    ensures
        spec_children(records, trunk, 0, i).1 == Seq::new((records.len() - i) as nat, |k: int| i + k),
    decreases records.len() - i,
{
    if i == records.len() {
        assert(spec_children(records, trunk, 0, i).1 =~= Seq::new(
            (records.len() - i) as nat,
            |k: int| i + k,
        ));
    } else {
        assert(forall|k: int|
            0 <= k < records.len() ==> (#[trigger] records[k]).base_branch != records[
                i
            ].head_branch);
        lemma_children_none(records, records[i].head_branch, 1, 0);
        lemma_flat_children(records, trunk, i + 1);
        assert(spec_forest(records, records[i].head_branch, 1).1 == Seq::<int>::empty());
        assert(spec_children(records, trunk, 0, i).1 == seq![i] + Seq::<int>::empty()
            + spec_children(records, trunk, 0, i + 1).1);
        assert(spec_children(records, trunk, 0, i).1 =~= Seq::new(
            (records.len() - i) as nat,
            |k: int| i + k,
        ));
    }
}

/// The number of occurrences of `t` in `s`.
pub open spec fn count_of(s: Seq<int>, t: int) -> nat
    decreases s.len(),
{
    if s.len() == 0 {
        0
    } else {
        count_of(s.drop_last(), t) + (if s.last() == t {
            1nat
        } else {
            0nat
        })
    }
}

proof fn lemma_count_concat(a: Seq<int>, b: Seq<int>, t: int)
    ensures
        count_of(a + b, t) == count_of(a, t) + count_of(b, t),
    decreases b.len(),
{
    if b.len() == 0 {
        assert(a + b =~= a);
    } else {
        lemma_count_concat(a, b.drop_last(), t);
        assert((a + b).drop_last() =~= a + b.drop_last());
        assert((a + b).last() == b.last());
    }
}

/// A level assignment certifying that the branch graph of `records` is a
/// non-cyclic forest rooted at `trunk`, deep enough below the cutoff, in
/// which every record has exactly one place: a record is at level 0 exactly
/// when its base branch is the trunk; every deeper record's base branch is
/// the head branch of exactly one record, one level up; head branches are
/// distinct and never the trunk.
pub open spec fn well_leveled(records: Seq<PrView>, trunk: Seq<char>, lv: Seq<int>) -> bool {
    &&& lv.len() == records.len()
    &&& forall|i: int| 0 <= i < records.len() ==> 0 <= #[trigger] lv[i] && lv[i] + 2 < MAX_DEPTH
    &&& forall|i: int|
        0 <= i < records.len() ==> ((#[trigger] records[i]).base_branch == trunk <==> lv[i] == 0)
    &&& forall|i: int|
        0 <= i < records.len() && lv[i] > 0 ==> exists|j: int|
            0 <= j < records.len() && (#[trigger] records[j]).head_branch == records[i].base_branch
    &&& forall|i: int, j: int|
        0 <= i < records.len() && 0 <= j < records.len() && (#[trigger] records[j]).head_branch == (
        #[trigger] records[i]).base_branch ==> lv[i] == lv[j] + 1
    &&& forall|i: int, j: int|
        0 <= i < records.len() && 0 <= j < records.len() && (#[trigger] records[i]).head_branch == (
        #[trigger] records[j]).head_branch ==> i == j
    &&& forall|i: int| 0 <= i < records.len() ==> (#[trigger] records[i]).head_branch != trunk
}

/// `parent` can stand at depth `d`: it is the trunk at the top, or the head
/// branch of a record one level up.
pub open spec fn depth_correct(
    records: Seq<PrView>,
    trunk: Seq<char>,
    lv: Seq<int>,
    p: Seq<char>,
    d: int,
) -> bool {
    (p == trunk && d == 0) || (exists|j: int|
        0 <= j < records.len() && (#[trigger] records[j]).head_branch == p && d == lv[j] + 1)
}

/// The record whose head branch is record `s`'s base branch (unique under
/// [`well_leveled`]).
pub open spec fn parent_of(records: Seq<PrView>, s: int) -> int {
    choose|j: int|
        0 <= j < records.len() && (#[trigger] records[j]).head_branch == records[s].base_branch
}

/// Record `t`'s ancestor `k` parent steps up.
pub open spec fn anc_at(records: Seq<PrView>, t: int, k: int) -> int
    decreases k,
{
    if k <= 0 {
        t
    } else {
        parent_of(records, anc_at(records, t, k - 1))
    }
}

proof fn lemma_anc_props(records: Seq<PrView>, trunk: Seq<char>, lv: Seq<int>, t: int, k: int)
    requires
        well_leveled(records, trunk, lv),
        0 <= t < records.len(),
        0 <= k <= lv[t],
    ensures
        0 <= anc_at(records, t, k) < records.len(),
        lv[anc_at(records, t, k)] == lv[t] - k,
        k > 0 ==> records[anc_at(records, t, k - 1)].base_branch == records[anc_at(
            records,
            t,
            k,
        )].head_branch,
    decreases k,
{
    if k > 0 {
        lemma_anc_props(records, trunk, lv, t, k - 1);
        let a1 = anc_at(records, t, k - 1);
        assert(lv[a1] == lv[t] - (k - 1));
        assert(lv[a1] > 0);
        assert(exists|j: int|
            0 <= j < records.len() && (#[trigger] records[j]).head_branch == records[
                a1
            ].base_branch);
        let p = parent_of(records, a1);
        assert(0 <= p < records.len() && records[p].head_branch == records[a1].base_branch);
        assert(lv[a1] == lv[p] + 1);
    }
}

#[verifier::rlimit(100)]
proof fn lemma_children_count(
    records: Seq<PrView>,
    trunk: Seq<char>,
    lv: Seq<int>,
    p: Seq<char>,
    d: int,
    i: int,
    t: int,
)
    requires
        well_leveled(records, trunk, lv),
        depth_correct(records, trunk, lv, p, d),
        0 <= d < MAX_DEPTH,
        0 <= i <= records.len(),
        0 <= t < records.len(),
    ensures
        count_of(spec_children(records, p, d as u8, i).1, t) == (if lv[t] >= d && records[anc_at(
            records,
            t,
            lv[t] - d,
        )].base_branch == p && anc_at(records, t, lv[t] - d) >= i {
            1int
        } else {
            0int
        }),
    decreases MAX_DEPTH - d, records.len() - i,
{
    if i == records.len() {
        if lv[t] >= d {
            lemma_anc_props(records, trunk, lv, t, lv[t] - d);
        }
    } else if records[i].base_branch == p {
        assert(lv[i] == d) by {
            if p == trunk && d == 0 {
                assert(records[i].base_branch == trunk);
            } else {
                let j = choose|j: int|
                    0 <= j < records.len() && (#[trigger] records[j]).head_branch == p && d == lv[j]
                        + 1;
                assert(records[j].head_branch == records[i].base_branch);
            }
        }
        let sub = spec_forest(records, records[i].head_branch, (d + 1) as u8);
        let rest = spec_children(records, p, d as u8, i + 1);
        lemma_count_concat(seq![i] + sub.1, rest.1, t);
        lemma_count_concat(seq![i], sub.1, t);
        assert(count_of(seq![i], t) == (if t == i {
            1int
        } else {
            0int
        })) by {
            assert(seq![i].len() == 1);
            assert(seq![i].last() == i);
            assert(seq![i].drop_last() =~= Seq::<int>::empty());
            assert(count_of(Seq::<int>::empty(), t) == 0);
        }
        assert(depth_correct(records, trunk, lv, records[i].head_branch, d + 1));
        lemma_children_count(records, trunk, lv, records[i].head_branch, d + 1, 0, t);
        assert(sub.1 == spec_children(records, records[i].head_branch, (d + 1) as u8, 0).1);
        lemma_children_count(records, trunk, lv, p, d, i + 1, t);
        if t == i {
            assert(anc_at(records, t, 0) == t);
        } else {
            if lv[t] >= d + 1 {
                let k = lv[t] - d;
                let a1 = anc_at(records, t, k - 1);
                let a = anc_at(records, t, k);
                lemma_anc_props(records, trunk, lv, t, k - 1);
                lemma_anc_props(records, trunk, lv, t, k);
                assert(a == parent_of(records, a1));
                assert(records[a1].base_branch == records[a].head_branch);
                if a == i {
                    assert(records[a1].base_branch == records[i].head_branch);
                } else {
                    assert(records[a1].base_branch != records[i].head_branch);
                }
            } else if lv[t] == d {
                assert(anc_at(records, t, 0) == t);
            }
        }
    } else {
        lemma_children_count(records, trunk, lv, p, d, i + 1, t);
        if lv[t] >= d {
            lemma_anc_props(records, trunk, lv, t, lv[t] - d);
        }
    }
}

/// Exactly-once placement for non-cyclic record sets: when a level
/// assignment certifies the branch graph as a forest rooted at the trunk
/// ([`well_leveled`]: acyclic, connected to the trunk, distinct heads,
/// within the depth cutoff), the forest rooted at the trunk places every
/// record exactly once. Together with the depth cutoff's unconditional
/// termination, this is the placement guarantee for well-formed inputs;
/// inputs where several records share a head branch fall outside it, since
/// there a record below the shared head has no single place.
pub proof fn lemma_forest_each_once(
    records: Seq<PrView>,
    trunk: Seq<char>,
    lv: Seq<int>,
    t: int,
)
    requires
        well_leveled(records, trunk, lv),
        0 <= t < records.len(),
    ensures
        count_of(spec_emitted(records, trunk, 0), t) == 1,
{
    lemma_children_count(records, trunk, lv, trunk, 0, 0, t);
    lemma_anc_props(records, trunk, lv, t, lv[t]);
}

/// Exactly-once placement for one-level forests: when every record's base
/// branch equals the trunk and no head branch equals any base branch, the
/// forest rooted at the trunk places every record exactly once, in input
/// order. (For arbitrary non-cyclic inputs the builder still terminates, by
/// its depth cutoff, but a record whose base branch matches several heads
/// may be placed under each of them.)
pub proof fn lemma_flat_forest_each_once(records: Seq<PrView>, trunk: Seq<char>)
    requires
        forall|k: int| 0 <= k < records.len() ==> (#[trigger] records[k]).base_branch == trunk,
        forall|j: int, k: int|
            0 <= j < records.len() && 0 <= k < records.len() ==> (
            #[trigger] records[j]).head_branch != (#[trigger] records[k]).base_branch,
    ensures
        spec_emitted(records, trunk, 0) == Seq::new(records.len(), |k: int| k),
{
    lemma_flat_children(records, trunk, 0);
    assert(Seq::new((records.len() - 0) as nat, |k: int| 0 + k) =~= Seq::new(
        records.len(),
        |k: int| k,
    ));
}

} // verus!
