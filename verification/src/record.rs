//! The PR record model: the immutable value type describing one fetched
//! change-request, and the decoder that turns raw (possibly incomplete)
//! upstream fields into validated records.

use vstd::prelude::*;

verus! {

/// One label attached to a change-request: a display name and a color hint.
pub struct Label {
    pub name: String,
    pub color: String,
}

/// Spec-level image of a [`Label`].
pub ghost struct LabelView {
    pub name: Seq<char>,
    pub color: Seq<char>,
}

impl DeepView for Label {
    type V = LabelView;

    open spec fn deep_view(&self) -> LabelView {
        LabelView { name: self.name@, color: self.color@ }
    }
}

/// One fetched change-request. Immutable once constructed: every field is
/// fixed by [`decode_pr`], with `author_name` the only field that may come
/// from a default rather than from upstream data.
pub struct PrRecord {
    pub number: usize,
    pub title: String,
    pub url: String,
    pub author_name: String,
    pub base_branch: String,
    pub head_branch: String,
    pub labels: Vec<Label>,
}

/// Spec-level image of a [`PrRecord`].
pub ghost struct PrView {
    pub number: usize,
    pub title: Seq<char>,
    pub url: Seq<char>,
    pub author_name: Seq<char>,
    pub base_branch: Seq<char>,
    pub head_branch: Seq<char>,
    pub labels: Seq<LabelView>,
}

impl DeepView for PrRecord {
    type V = PrView;

    open spec fn deep_view(&self) -> PrView {
        PrView {
            number: self.number,
            title: self.title@,
            url: self.url@,
            author_name: self.author_name@,
            base_branch: self.base_branch@,
            head_branch: self.head_branch@,
            labels: self.labels.deep_view(),
        }
    }
}

/// A label as it arrives from upstream, before validation: either field may
/// be absent.
pub struct RawLabel {
    pub name: Option<String>,
    pub color: Option<String>,
}

/// Spec-level image of a [`RawLabel`].
pub ghost struct RawLabelView {
    pub name: Option<Seq<char>>,
    pub color: Option<Seq<char>>,
}

impl DeepView for RawLabel {
    type V = RawLabelView;

    open spec fn deep_view(&self) -> RawLabelView {
        RawLabelView { name: self.name.deep_view(), color: self.color.deep_view() }
    }
}

/// The author object as it arrives from upstream: the name may be absent.
pub struct RawAuthor {
    pub name: Option<String>,
}

/// Spec-level image of a [`RawAuthor`].
pub ghost struct RawAuthorView {
    pub name: Option<Seq<char>>,
}

impl DeepView for RawAuthor {
    type V = RawAuthorView;

    open spec fn deep_view(&self) -> RawAuthorView {
        RawAuthorView { name: self.name.deep_view() }
    }
}

/// One change-request as it arrives from upstream, before validation: any
/// field may be absent.
pub struct RawPr {
    pub author: Option<RawAuthor>,
    pub base: Option<String>,
    pub head: Option<String>,
    pub number: Option<usize>,
    pub title: Option<String>,
    pub url: Option<String>,
    pub labels: Option<Vec<RawLabel>>,
}

/// Spec-level image of a [`RawPr`].
pub ghost struct RawPrView {
    pub author: Option<RawAuthorView>,
    pub base: Option<Seq<char>>,
    pub head: Option<Seq<char>>,
    pub number: Option<usize>,
    pub title: Option<Seq<char>>,
    pub url: Option<Seq<char>>,
    pub labels: Option<Seq<RawLabelView>>,
}

impl DeepView for RawPr {
    type V = RawPrView;

    open spec fn deep_view(&self) -> RawPrView {
        RawPrView {
            author: self.author.deep_view(),
            base: self.base.deep_view(),
            head: self.head.deep_view(),
            number: self.number,
            title: self.title.deep_view(),
            url: self.url.deep_view(),
            labels: self.labels.deep_view(),
        }
    }
}

/// Decoding failed: a required field was absent, or the labels list was
/// malformed.
#[derive(Clone, Copy, Debug, PartialEq, Eq)]
pub enum DecodeError {
    MissingField,
}

/// The placeholder author name used when upstream data omits an author name.
pub fn bot() -> (r: String)
    ensures
        r@ == "bot"@,
{
    "bot".to_owned()
}

/// A raw record is complete when every required field is present and every
/// label carries both its name and its color. The author name itself is not
/// required: it defaults.
pub open spec fn raw_pr_complete(r: RawPrView) -> bool {
    &&& r.author is Some
    &&& r.base is Some
    &&& r.head is Some
    &&& r.number is Some
    &&& r.title is Some
    &&& r.url is Some
    &&& r.labels is Some
    &&& forall|i: int|
        0 <= i < r.labels->Some_0.len() ==> {
            &&& (#[trigger] r.labels->Some_0[i]).name is Some
            &&& r.labels->Some_0[i].color is Some
        }
}

/// The record a complete raw record decodes to: each field is taken as it
/// stands, except that an absent author name becomes `"bot"`.
pub open spec fn decoded_pr(r: RawPrView) -> PrView
    recommends
        raw_pr_complete(r),
{
    PrView {
        number: r.number->Some_0,
        title: r.title->Some_0,
        url: r.url->Some_0,
        author_name: if r.author->Some_0.name is Some {
            r.author->Some_0.name->Some_0
        } else {
            "bot"@
        },
        base_branch: r.base->Some_0,
        head_branch: r.head->Some_0,
        labels: r.labels->Some_0.map_values(
            |l: RawLabelView| LabelView { name: l.name->Some_0, color: l.color->Some_0 },
        ),
    }
}

/// Every raw record in the sequence is complete.
pub open spec fn raw_prs_complete(rs: Seq<RawPrView>) -> bool {
    forall|i: int| 0 <= i < rs.len() ==> raw_pr_complete(#[trigger] rs[i])
}

/// Decodes one raw record. Returns `Ok` exactly when the record is complete
/// ([`raw_pr_complete`]); the decoded record is [`decoded_pr`] of the input.
#[verifier::loop_isolation(false)]
pub fn decode_pr(raw: &RawPr) -> (r: Result<PrRecord, DecodeError>)
    ensures
        r is Ok <==> raw_pr_complete(raw.deep_view()),
        r is Ok ==> r->Ok_0.deep_view() == decoded_pr(raw.deep_view()),
{
    let author = match &raw.author {
        Some(a) => a,
        None => { return Err(DecodeError::MissingField); },
    };
    let base = match &raw.base {
        Some(s) => s.clone(),
        None => { return Err(DecodeError::MissingField); },
    };
    let head = match &raw.head {
        Some(s) => s.clone(),
        None => { return Err(DecodeError::MissingField); },
    };
    let number = match &raw.number {
        Some(n) => *n,
        None => { return Err(DecodeError::MissingField); },
    };
    let title = match &raw.title {
        Some(s) => s.clone(),
        None => { return Err(DecodeError::MissingField); },
    };
    let url = match &raw.url {
        Some(s) => s.clone(),
        None => { return Err(DecodeError::MissingField); },
    };
    let raw_labels = match &raw.labels {
        Some(ls) => ls,
        None => { return Err(DecodeError::MissingField); },
    };
    let author_name = match &author.name {
        Some(s) => s.clone(),
        None => bot(),
    };
    let mut labels: Vec<Label> = Vec::new();
    let mut i: usize = 0;
    while i < raw_labels.len()
        invariant
            0 <= i <= raw_labels.len(),
            forall|k: int|
                0 <= k < i ==> {
                    &&& (#[trigger] raw_labels.deep_view()[k]).name is Some
                    &&& raw_labels.deep_view()[k].color is Some
                },
            labels.deep_view() == raw_labels.deep_view().take(i as int).map_values(
                |l: RawLabelView| LabelView { name: l.name->Some_0, color: l.color->Some_0 },
            ),
        decreases raw_labels.len() - i,
    {
        proof {
            assert(raw.deep_view().labels->Some_0[i as int] == raw_labels@[i as int].deep_view());
        }
        let name = match &raw_labels[i].name {
            Some(s) => s.clone(),
            None => {
                proof {
                    assert(!raw_pr_complete(raw.deep_view()));
                }
                return Err(DecodeError::MissingField);
            },
        };
        let color = match &raw_labels[i].color {
            Some(s) => s.clone(),
            None => {
                proof {
                    assert(!raw_pr_complete(raw.deep_view()));
                }
                return Err(DecodeError::MissingField);
            },
        };
        let ghost prev = labels.deep_view();
        labels.push(Label { name, color });
        proof {
            let f = |l: RawLabelView| LabelView { name: l.name->Some_0, color: l.color->Some_0 };
            let lv = raw_labels.deep_view();
            assert forall|k: int| 0 <= k < i + 1 implies labels.deep_view()[k] == lv.take(
                i + 1,
            ).map_values(f)[k] by {
                assert(lv.take(i + 1).map_values(f)[k] == f(lv[k]));
                if k < i {
                    assert(prev[k] == lv.take(i as int).map_values(f)[k]);
                    assert(labels.deep_view()[k] == prev[k]);
                } else {
                    assert(labels.deep_view()[k] == labels@[k].deep_view());
                    assert(lv[k] == raw_labels@[k].deep_view());
                }
            }
            assert(labels.deep_view() =~= lv.take(i + 1).map_values(f));
        }
        i += 1;
    }
    proof {
        assert(raw_labels.deep_view().take(raw_labels.len() as int) =~= raw_labels.deep_view());
    }
    let rec = PrRecord { number, title, url, author_name, base_branch: base, head_branch: head, labels };
    Ok(rec)
}

/// Decodes a flat list of raw records. Returns `Ok` exactly when every raw
/// record is complete; the result decodes each record in order. One
/// incomplete record fails the whole list.
#[verifier::loop_isolation(false)]
pub fn decode_prs(raws: &Vec<RawPr>) -> (r: Result<Vec<PrRecord>, DecodeError>)
    ensures
        r is Ok <==> raw_prs_complete(raws.deep_view()),
        r is Ok ==> r->Ok_0.deep_view() == raws.deep_view().map_values(
            |p: RawPrView| decoded_pr(p),
        ),
{
    let mut out: Vec<PrRecord> = Vec::new();
    let mut i: usize = 0;
    while i < raws.len()
        invariant
            0 <= i <= raws.len(),
            forall|k: int| 0 <= k < i ==> raw_pr_complete(#[trigger] raws.deep_view()[k]),
            out.deep_view() == raws.deep_view().take(i as int).map_values(
                |p: RawPrView| decoded_pr(p),
            ),
        decreases raws.len() - i,
    {
        proof {
            assert(raws.deep_view()[i as int] == raws@[i as int].deep_view());
        }
        match decode_pr(&raws[i]) {
            Ok(rec) => {
                let ghost prev = out.deep_view();
                let ghost recv = rec.deep_view();
                out.push(rec);
                proof {
                    let f = |p: RawPrView| decoded_pr(p);
                    let rv = raws.deep_view();
                    assert forall|k: int| 0 <= k < i + 1 implies out.deep_view()[k] == rv.take(
                        i + 1,
                    ).map_values(f)[k] by {
                        assert(rv.take(i + 1).map_values(f)[k] == f(rv[k]));
                        if k < i {
                            assert(prev[k] == rv.take(i as int).map_values(f)[k]);
                            assert(out.deep_view()[k] == prev[k]);
                        } else {
                            assert(out.deep_view()[k] == recv);
                        }
                    }
                    assert(out.deep_view() =~= rv.take(i + 1).map_values(f));
                }
            },
            Err(e) => { return Err(e); },
        }
        i += 1;
    }
    proof {
        assert(raws.deep_view().take(raws.len() as int) =~= raws.deep_view());
    }
    Ok(out)
}

} // verus!
