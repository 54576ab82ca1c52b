//! The laws of the interpreter, proved from the run specifications: OR
//! accumulates every hit, AND halts at the first miss, stop-at-first-match
//! records only the first hit, negation inverts the raw boolean, metadata
//! kinds never error on request-only targets, a missing favicon map aborts
//! a pass whole, and one extractor's failure never reaches another.
use vstd::prelude::*;

use crate::execute::ClusterTypeView;
use crate::execute::ClusterView;
use crate::execute::OpRef;
use crate::execute::ProbeView;
use crate::execute::Template;
use crate::execute::add_template;
use crate::execute::bucket_add;
use crate::execute::bucket_key_idx;
use crate::execute::cluster_fold;
use crate::execute::ct_empty;
use crate::execute::is_default_tcp;
use crate::execute::is_default_web;
use crate::execute::is_favicon_web;
use crate::execute::tcp_key_idx;
use crate::execute::template_name;
use crate::matchers::Matcher;
use crate::matchers::eval_match;
use crate::matchers::favicon_abort;
use crate::matchers::match_words;
use crate::matchers::raw_match;
use crate::operators::Operators;
use crate::operators::ResView;
use crate::operators::add_contribution;
use crate::operators::spec_extract_run;
use crate::operators::spec_extract_step;
use crate::operators::spec_matcher_run;
use crate::operators::spec_matcher_top;
use crate::strings::dedup_insert;
use crate::target::OperatorTarget;
use crate::target::ResponseMeta;
use crate::target::part_ok;
use crate::target::part_text_or_empty;
use crate::target::part_words;

verus! {

/// The boolean matcher `j` of `op` contributes against target `t`.
pub open spec fn eval_at(op: Operators, t: OperatorTarget, meta: Option<ResponseMeta>, j: int) -> bool {
    eval_match(
        op.matchers@[j],
        part_words(t, op.matchers@[j].part),
        part_text_or_empty(t, op.matchers@[j].part),
        meta,
    )
}

/// The words matcher `j` reports.
pub open spec fn words_at(op: Operators, t: OperatorTarget, meta: Option<ResponseMeta>, j: int) -> Seq<
    Seq<char>,
> {
    match_words(
        op.matchers@[j],
        part_words(t, op.matchers@[j].part),
        part_text_or_empty(t, op.matchers@[j].part),
        meta,
    )
}

/// Matcher `j` can be evaluated: its part resolves and it is no favicon
/// matcher facing metadata without a hash map.
pub open spec fn avail_at(op: Operators, t: OperatorTarget, meta: Option<ResponseMeta>, j: int) -> bool {
    part_ok(t, op.matchers@[j].part) && !favicon_abort(op.matchers@[j], meta)
}

/// A matcher name is recorded in a name set.
pub open spec fn name_recorded(names: Seq<Seq<char>>, n: Option<String>) -> bool {
    match n {
        Option::Some(s) => names.contains(s@),
        Option::None => true,
    }
}

/// The words of every contributing matcher from `i` on, in order.
pub open spec fn or_words(op: Operators, t: OperatorTarget, meta: Option<ResponseMeta>, i: int) -> Seq<
    Seq<char>,
>
    decreases op.matchers@.len() - i,
{
    if i < 0 || i >= op.matchers@.len() {
        Seq::empty()
    } else {
        (if eval_at(op, t, meta, i) {
            words_at(op, t, meta, i)
        } else {
            Seq::empty()
        }) + or_words(op, t, meta, i + 1)
    }
}

/// The words of every matcher up to the first miss from `i` on.
pub open spec fn and_words(op: Operators, t: OperatorTarget, meta: Option<ResponseMeta>, i: int) -> Seq<
    Seq<char>,
>
    decreases op.matchers@.len() - i,
{
    if i < 0 || i >= op.matchers@.len() || !eval_at(op, t, meta, i) {
        Seq::empty()
    } else {
        words_at(op, t, meta, i) + and_words(op, t, meta, i + 1)
    }
}

/// The first contributing matcher from `i` on; the length when none.
pub open spec fn first_true_idx(op: Operators, t: OperatorTarget, meta: Option<ResponseMeta>, i: int) -> int
    decreases op.matchers@.len() - i,
{
    if i < 0 || i >= op.matchers@.len() {
        op.matchers@.len() as int
    } else if eval_at(op, t, meta, i) {
        i
    } else {
        first_true_idx(op, t, meta, i + 1)
    }
}

proof fn lemma_dedup_insert_contains(s: Seq<Seq<char>>, x: Seq<char>)
    ensures
        dedup_insert(s, x).contains(x),
        forall|y: Seq<char>| s.contains(y) ==> dedup_insert(s, x).contains(y),
{
    if s.contains(x) {
    } else {
        assert(s.push(x)[s.len() as int] == x);
        assert forall|y: Seq<char>| s.contains(y) implies dedup_insert(s, x).contains(y) by {
            let i = choose|i: int| 0 <= i < s.len() && s[i] == y;
            assert(s.push(x)[i] == y);
        }
    }
}

proof fn lemma_or_run(
    op: Operators,
    t: OperatorTarget,
    meta: Option<ResponseMeta>,
    i: int,
    r: ResView,
)
    requires
        op.matchers_condition is Or,
        !op.stop_at_first_match,
        0 <= i <= op.matchers@.len(),
        forall|j: int| i <= j < op.matchers@.len() ==> avail_at(op, t, meta, j),
    ensures
        spec_matcher_run(op, t, meta, i, r).ok,
        spec_matcher_run(op, t, meta, i, r).res.matched == (r.matched || exists|j: int|
            i <= j < op.matchers@.len() && eval_at(op, t, meta, j)),
        spec_matcher_run(op, t, meta, i, r).res.matcher_word == r.matcher_word + or_words(
            op,
            t,
            meta,
            i,
        ),
        forall|j: int| i <= j < op.matchers@.len() && eval_at(op, t, meta, j) ==> name_recorded(
            spec_matcher_run(op, t, meta, i, r).res.name,
            op.matchers@[j].name,
        ),
        forall|y: Seq<char>| r.name.contains(y) ==> spec_matcher_run(
            op,
            t,
            meta,
            i,
            r,
        ).res.name.contains(y),
        spec_matcher_run(op, t, meta, i, r).res.extract == r.extract,
    decreases op.matchers@.len() - i,
{
    if i >= op.matchers@.len() {
        assert(r.matcher_word + or_words(op, t, meta, i) =~= r.matcher_word);
    } else {
        let m = op.matchers@[i];
        assert(avail_at(op, t, meta, i));
        if !eval_at(op, t, meta, i) {
            lemma_or_run(op, t, meta, i + 1, r);
            assert(or_words(op, t, meta, i) =~= or_words(op, t, meta, i + 1));
        } else {
            let r2 = add_contribution(r, m, words_at(op, t, meta, i));
            let r3 = ResView { matched: true, ..r2 };
            lemma_or_run(op, t, meta, i + 1, r3);
            assert(r3.matcher_word + or_words(op, t, meta, i + 1) =~= r.matcher_word + or_words(
                op,
                t,
                meta,
                i,
            ));
            match m.name {
                Option::Some(n) => {
                    lemma_dedup_insert_contains(r.name, n@);
                },
                Option::None => {},
            }
        }
    }
}

/// For an OR operator set without stop-at-first-match, over matchers whose
/// parts resolve: the pass completes; matched holds if and only if at least
/// one matcher (after negation) holds; the matched words are those of every
/// contributing matcher, in order, not only the first; and every
/// contributing matcher's name is recorded.
pub proof fn lemma_or_semantics(
    op: Operators,
    t: OperatorTarget,
    meta: Option<ResponseMeta>,
    r: ResView,
)
    requires
        op.matchers_condition is Or,
        !op.stop_at_first_match,
        forall|j: int| 0 <= j < op.matchers@.len() ==> avail_at(op, t, meta, j),
    ensures
        spec_matcher_top(op, t, meta, r).ok,
        spec_matcher_top(op, t, meta, r).res.matched == (r.matched || exists|j: int|
            0 <= j < op.matchers@.len() && eval_at(op, t, meta, j)),
        spec_matcher_top(op, t, meta, r).res.matcher_word == r.matcher_word + or_words(
            op,
            t,
            meta,
            0,
        ),
        forall|j: int| 0 <= j < op.matchers@.len() && eval_at(op, t, meta, j) ==> name_recorded(
            spec_matcher_top(op, t, meta, r).res.name,
            op.matchers@[j].name,
        ),
{
    if op.matchers@.len() == 0 {
        assert(r.matcher_word + or_words(op, t, meta, 0) =~= r.matcher_word);
    } else {
        lemma_or_run(op, t, meta, 0, r);
    }
}

proof fn lemma_and_run(
    op: Operators,
    t: OperatorTarget,
    meta: Option<ResponseMeta>,
    i: int,
    r: ResView,
)
    requires
        op.matchers_condition is And,
        0 <= i <= op.matchers@.len(),
        forall|j: int|
            i <= j < op.matchers@.len() && (forall|k: int| i <= k < j ==> eval_at(op, t, meta, k))
                ==> avail_at(op, t, meta, j),
    ensures
        spec_matcher_run(op, t, meta, i, r).ok,
        spec_matcher_run(op, t, meta, i, r).res.matched == (forall|j: int|
            i <= j < op.matchers@.len() ==> eval_at(op, t, meta, j)),
        spec_matcher_run(op, t, meta, i, r).res.matcher_word == r.matcher_word + and_words(
            op,
            t,
            meta,
            i,
        ),
        spec_matcher_run(op, t, meta, i, r).res.extract == r.extract,
    decreases op.matchers@.len() - i,
{
    if i >= op.matchers@.len() {
        assert(r.matcher_word + and_words(op, t, meta, i) =~= r.matcher_word);
    } else {
        let m = op.matchers@[i];
        assert(avail_at(op, t, meta, i));
        if !eval_at(op, t, meta, i) {
            assert(r.matcher_word + and_words(op, t, meta, i) =~= r.matcher_word);
            assert(!(forall|j: int| i <= j < op.matchers@.len() ==> eval_at(op, t, meta, j)));
        } else {
            let r2 = add_contribution(r, m, words_at(op, t, meta, i));
            assert forall|j: int|
                i + 1 <= j < op.matchers@.len() && (forall|k: int|
                    i + 1 <= k < j ==> eval_at(op, t, meta, k)) implies avail_at(
                op,
                t,
                meta,
                j,
            ) by {
                assert(forall|k: int| i <= k < j ==> eval_at(op, t, meta, k));
            }
            lemma_and_run(op, t, meta, i + 1, r2);
            assert(r2.matcher_word + and_words(op, t, meta, i + 1) =~= r.matcher_word + and_words(
                op,
                t,
                meta,
                i,
            ));
            if forall|j: int| i + 1 <= j < op.matchers@.len() ==> eval_at(op, t, meta, j) {
                assert(forall|j: int| i <= j < op.matchers@.len() ==> eval_at(op, t, meta, j));
            }
        }
    }
}

/// For an AND operator set: the pass completes when every matcher up to and
/// including the first miss can be evaluated; matched holds if and only if
/// every matcher (after negation) holds; and the matched words stop at the
/// first miss, matchers after it are never evaluated.
pub proof fn lemma_and_semantics(
    op: Operators,
    t: OperatorTarget,
    meta: Option<ResponseMeta>,
    r: ResView,
)
    requires
        op.matchers_condition is And,
        op.matchers@.len() > 0,
        forall|j: int|
            0 <= j < op.matchers@.len() && (forall|k: int| 0 <= k < j ==> eval_at(op, t, meta, k))
                ==> avail_at(op, t, meta, j),
    ensures
        spec_matcher_top(op, t, meta, r).ok,
        spec_matcher_top(op, t, meta, r).res.matched == (forall|j: int|
            0 <= j < op.matchers@.len() ==> eval_at(op, t, meta, j)),
        spec_matcher_top(op, t, meta, r).res.matcher_word == r.matcher_word + and_words(
            op,
            t,
            meta,
            0,
        ),
{
    lemma_and_run(op, t, meta, 0, r);
}

proof fn lemma_or_stop_run(
    op: Operators,
    t: OperatorTarget,
    meta: Option<ResponseMeta>,
    i: int,
    r: ResView,
)
    requires
        op.matchers_condition is Or,
        op.stop_at_first_match,
        0 <= i <= op.matchers@.len(),
        forall|j: int|
            i <= j < op.matchers@.len() && (forall|k: int| i <= k < j ==> !eval_at(op, t, meta, k))
                ==> avail_at(op, t, meta, j),
    ensures
        spec_matcher_run(op, t, meta, i, r).ok,
        ({
            let f = first_true_idx(op, t, meta, i);
            if f < op.matchers@.len() {
                spec_matcher_run(op, t, meta, i, r).res == (ResView {
                    matched: true,
                    ..add_contribution(r, op.matchers@[f], words_at(op, t, meta, f))
                })
            } else {
                spec_matcher_run(op, t, meta, i, r).res == r
            }
        }),
    decreases op.matchers@.len() - i,
{
    if i >= op.matchers@.len() {
    } else {
        assert(avail_at(op, t, meta, i));
        if eval_at(op, t, meta, i) {
        } else {
            assert forall|j: int|
                i + 1 <= j < op.matchers@.len() && (forall|k: int|
                    i + 1 <= k < j ==> !eval_at(op, t, meta, k)) implies avail_at(
                op,
                t,
                meta,
                j,
            ) by {
                assert(forall|k: int| i <= k < j ==> !eval_at(op, t, meta, k));
            }
            lemma_or_stop_run(op, t, meta, i + 1, r);
        }
    }
}

/// For an OR operator set with stop-at-first-match: only the first
/// contributing matcher's name and words are recorded; matchers after it
/// contribute nothing.
pub proof fn lemma_stop_at_first_match(
    op: Operators,
    t: OperatorTarget,
    meta: Option<ResponseMeta>,
    r: ResView,
)
    requires
        op.matchers_condition is Or,
        op.stop_at_first_match,
        op.matchers@.len() > 0,
        forall|j: int|
            0 <= j < op.matchers@.len() && (forall|k: int| 0 <= k < j ==> !eval_at(op, t, meta, k))
                ==> avail_at(op, t, meta, j),
    ensures
        spec_matcher_top(op, t, meta, r).ok,
        ({
            let f = first_true_idx(op, t, meta, 0);
            if f < op.matchers@.len() {
                spec_matcher_top(op, t, meta, r).res == (ResView {
                    matched: true,
                    ..add_contribution(r, op.matchers@[f], words_at(op, t, meta, f))
                })
            } else {
                spec_matcher_top(op, t, meta, r).res == r
            }
        }),
{
    lemma_or_stop_run(op, t, meta, 0, r);
}

/// The negate flag inverts the raw boolean before condition bookkeeping,
/// for every matcher kind: the raw boolean ignores the flag, and the
/// contributed boolean of the negated matcher is its complement.
pub proof fn lemma_negate_inverts(
    m: Matcher,
    words: Seq<Seq<char>>,
    text: Seq<char>,
    meta: Option<ResponseMeta>,
)
    ensures
        raw_match(Matcher { negative: true, ..m }, words, text, meta) == raw_match(
            Matcher { negative: false, ..m },
            words,
            text,
            meta,
        ),
        eval_match(Matcher { negative: true, ..m }, words, text, meta) == !eval_match(
            Matcher { negative: false, ..m },
            words,
            text,
            meta,
        ),
{
}

/// Status and favicon matchers against a request-only target (no response
/// metadata) evaluate false and never error.
pub proof fn lemma_request_only_metadata_kinds(
    m: Matcher,
    words: Seq<Seq<char>>,
    text: Seq<char>,
)
    requires
        m.kind is Status || m.kind is Favicon,
        !m.negative,
    ensures
        !favicon_abort(m, Option::None),
        !raw_match(m, words, text, Option::None),
        !eval_match(m, words, text, Option::None),
{
}

/// A favicon matcher facing response metadata without the hash-map
/// extension aborts the whole matcher pass: the outcome is an error and the
/// accumulator keeps exactly the value it had.
pub proof fn lemma_favicon_missing_aborts(
    op: Operators,
    t: OperatorTarget,
    md: ResponseMeta,
    r: ResView,
)
    requires
        op.matchers@.len() > 0,
        op.matchers@[0].kind is Favicon,
        part_ok(t, op.matchers@[0].part),
        md.favicon is None,
    ensures
        !spec_matcher_top(op, t, Option::Some(md), r).ok,
        spec_matcher_top(op, t, Option::Some(md), r).res == r,
{
    assert(favicon_abort(op.matchers@[0], Option::Some(md)));
}

/// The bound value one template contributes to its cluster.
pub open spec fn opref_of(t: Template) -> OpRef {
    OpRef {
        name: template_name(t.id@),
        version: crate::info::version_view(t.info.version),
        blocks: t.requests.operators@,
    }
}

/// The bound values of every template whose probe equals `p`, in order.
pub open spec fn ops_for(ts: Seq<Template>, p: ProbeView) -> Seq<OpRef>
    decreases ts.len(),
{
    if ts.len() == 0 {
        Seq::empty()
    } else {
        (if ts[0].requests.probe@ == p {
            seq![opref_of(ts[0])]
        } else {
            Seq::empty()
        }) + ops_for(ts.skip(1), p)
    }
}

/// The at-most-one canonical TCP cluster, as a bucket.
pub open spec fn opt_seq(o: Option<ClusterView>) -> Seq<ClusterView> {
    match o {
        Option::Some(c) => seq![c],
        Option::None => Seq::empty(),
    }
}

/// The keyed TCP clusters, without their keys.
pub open spec fn tcp_clusters(s: Seq<(Seq<char>, ClusterView)>) -> Seq<ClusterView> {
    Seq::new(s.len(), |i: int| s[i].1)
}

/// The bucket the probe kind of `p` selects.
pub open spec fn cat_bucket(cv: ClusterTypeView, p: ProbeView) -> Seq<ClusterView> {
    if is_default_web(p) {
        cv.web_default
    } else if is_favicon_web(p) {
        cv.web_favicon
    } else if !(p is Tcp) {
        cv.web_other
    } else if is_default_tcp(p) {
        opt_seq(cv.tcp_default)
    } else {
        tcp_clusters(cv.tcp_other)
    }
}

/// The operators of the first cluster of a bucket with probe `p`.
pub open spec fn bops(b: Seq<ClusterView>, p: ProbeView) -> Seq<OpRef> {
    let i = bucket_key_idx(b, p);
    if i < b.len() {
        b[i as int].ops
    } else {
        Seq::empty()
    }
}

/// The operators clustered under probe `p`.
pub open spec fn probe_ops(cv: ClusterTypeView, p: ProbeView) -> Seq<OpRef> {
    bops(cat_bucket(cv, p), p)
}

/// No two clusters of a bucket share a probe.
pub open spec fn bucket_distinct(b: Seq<ClusterView>) -> bool {
    forall|i: int, j: int| 0 <= i < j < b.len() ==> b[i].probe != b[j].probe
}

/// A well-formed partition: within each bucket the probes are pairwise
/// distinct, and every cluster sits in the bucket its probe kind selects.
pub open spec fn ct_wf(cv: ClusterTypeView) -> bool {
    &&& bucket_distinct(cv.web_default)
    &&& bucket_distinct(cv.web_favicon)
    &&& bucket_distinct(cv.web_other)
    &&& bucket_distinct(tcp_clusters(cv.tcp_other))
    &&& forall|i: int| 0 <= i < cv.web_default.len() ==> is_default_web(
        #[trigger] cv.web_default[i].probe,
    )
    &&& forall|i: int| 0 <= i < cv.web_favicon.len() ==> !is_default_web(
        #[trigger] cv.web_favicon[i].probe,
    ) && is_favicon_web(cv.web_favicon[i].probe)
    &&& forall|i: int| 0 <= i < cv.web_other.len() ==> !is_default_web(
        #[trigger] cv.web_other[i].probe,
    ) && !is_favicon_web(cv.web_other[i].probe) && !(cv.web_other[i].probe is Tcp)
    &&& (cv.tcp_default matches Option::Some(c) ==> is_default_tcp(c.probe))
    &&& forall|i: int| 0 <= i < cv.tcp_other.len() ==> (#[trigger] cv.tcp_other[i].1.probe)
        is Tcp && !is_default_tcp(cv.tcp_other[i].1.probe)
}

proof fn lemma_bucket_idx_props(b: Seq<ClusterView>, p: ProbeView)
    ensures
        bucket_key_idx(b, p) <= b.len(),
        bucket_key_idx(b, p) < b.len() ==> b[bucket_key_idx(b, p) as int].probe == p,
        forall|k: int| 0 <= k < bucket_key_idx(b, p) ==> b[k].probe != p,
    decreases b.len(),
{
    if b.len() == 0 {
    } else if b[0].probe == p {
    } else {
        lemma_bucket_idx_props(b.skip(1), p);
        assert forall|k: int| 0 <= k < bucket_key_idx(b, p) implies b[k].probe != p by {
            if k > 0 {
                assert(b.skip(1)[k - 1] == b[k]);
            }
        }
    }
}

proof fn lemma_key_idx_same_probes(b1: Seq<ClusterView>, b2: Seq<ClusterView>, p: ProbeView)
    requires
        b1.len() == b2.len(),
        forall|i: int| 0 <= i < b1.len() ==> b1[i].probe == b2[i].probe,
    ensures
        bucket_key_idx(b1, p) == bucket_key_idx(b2, p),
    decreases b1.len(),
{
    if b1.len() == 0 {
    } else if b1[0].probe == p {
    } else {
        assert forall|i: int| 0 <= i < b1.skip(1).len() implies b1.skip(1)[i].probe == b2.skip(
            1,
        )[i].probe by {
            assert(b1.skip(1)[i] == b1[i + 1]);
            assert(b2.skip(1)[i] == b2[i + 1]);
        }
        lemma_key_idx_same_probes(b1.skip(1), b2.skip(1), p);
    }
}

proof fn lemma_bucket_add_effect(
    b: Seq<ClusterView>,
    p0: ProbeView,
    rar: u8,
    co: OpRef,
    q: ProbeView,
)
    requires
        bucket_distinct(b),
    ensures
        bucket_distinct(bucket_add(b, p0, rar, co)),
        bucket_add(b, p0, rar, co).len() >= b.len(),
        forall|i: int| 0 <= i < b.len() ==> #[trigger] bucket_add(b, p0, rar, co)[i].probe
            == b[i].probe,
        forall|i: int| b.len() <= i < bucket_add(b, p0, rar, co).len() ==> #[trigger] bucket_add(
            b,
            p0,
            rar,
            co,
        )[i].probe == p0,
        bops(bucket_add(b, p0, rar, co), q) == if q == p0 {
            bops(b, p0).push(co)
        } else {
            bops(b, q)
        },
{
    let r = bucket_add(b, p0, rar, co);
    let i0 = bucket_key_idx(b, p0);
    lemma_bucket_idx_props(b, p0);
    if i0 < b.len() {
        assert forall|i: int| 0 <= i < b.len() implies #[trigger] r[i].probe == b[i].probe by {}
        lemma_key_idx_same_probes(b, r, p0);
        assert(bops(r, p0) =~= bops(b, p0).push(co));
        if q != p0 {
            lemma_bucket_idx_props(b, q);
            lemma_key_idx_same_probes(b, r, q);
            let iq = bucket_key_idx(b, q);
            if iq < b.len() {
                assert(b[iq as int].probe == q);
                assert(iq != i0);
                assert(bops(r, q) =~= bops(b, q));
            } else {
                assert(bops(r, q) =~= bops(b, q));
            }
        }
    } else {
        assert(forall|k: int| 0 <= k < b.len() ==> b[k].probe != p0);
        assert(r =~= b.push(ClusterView { probe: p0, rarity: rar, ops: seq![co] }));
        lemma_bucket_idx_at(r, p0, b.len() as int);
        assert(bops(r, p0) =~= seq![co]);
        assert(bops(b, p0) =~= Seq::<OpRef>::empty());
        assert(bops(b, p0).push(co) =~= seq![co]);
        if q != p0 {
            lemma_bucket_idx_props(b, q);
            let iq = bucket_key_idx(b, q);
            if iq < b.len() {
                lemma_bucket_idx_at(r, q, iq as int);
                assert(bops(r, q) =~= bops(b, q));
            } else {
                lemma_bucket_idx_at(r, q, r.len() as int);
                assert(bops(r, q) =~= bops(b, q));
            }
        }
    }
}

proof fn lemma_bucket_idx_at(b: Seq<ClusterView>, p: ProbeView, i: int)
    requires
        0 <= i <= b.len(),
        forall|k: int| 0 <= k < i ==> b[k].probe != p,
        i < b.len() ==> b[i].probe == p,
    ensures
        bucket_key_idx(b, p) == if i < b.len() {
            i as nat
        } else {
            b.len()
        },
    decreases b.len(),
{
    if b.len() == 0 {
    } else if i == 0 {
        if b[0].probe != p {
            lemma_bucket_idx_at(b.skip(1), p, i);
            assert forall|k: int| 0 <= k < b.skip(1).len() implies b.skip(1)[k].probe != p by {
                assert(b.skip(1)[k] == b[k + 1]);
            }
        }
    } else {
        lemma_bucket_idx_at(b.skip(1), p, i - 1);
    }
}

proof fn lemma_tcp_idx_eq(s: Seq<(Seq<char>, ClusterView)>, p: ProbeView)
    ensures
        tcp_key_idx(s, p) == bucket_key_idx(tcp_clusters(s), p),
    decreases s.len(),
{
    if s.len() == 0 {
    } else if s[0].1.probe == p {
    } else {
        lemma_tcp_idx_eq(s.skip(1), p);
        assert(tcp_clusters(s.skip(1)) =~= tcp_clusters(s).skip(1));
    }
}

proof fn lemma_default_tcp_unique(p1: ProbeView, p2: ProbeView)
    requires
        is_default_tcp(p1),
        is_default_tcp(p2),
    ensures
        p1 == p2,
{
    match (p1, p2) {
        (ProbeView::Tcp { payload: a, port: pa }, ProbeView::Tcp { payload: b, port: pb }) => {
            assert(a =~= b);
            assert(p1 =~= p2);
        },
        _ => {},
    }
}

proof fn lemma_add_template_ops(cv: ClusterTypeView, t: Template, p: ProbeView)
    requires
        ct_wf(cv),
    ensures
        ct_wf(add_template(cv, t)),
        probe_ops(add_template(cv, t), p) == probe_ops(cv, p) + (if t.requests.probe@ == p {
            seq![opref_of(t)]
        } else {
            Seq::empty()
        }),
    decreases 0int,
{
    let p0 = t.requests.probe@;
    let cv2 = add_template(cv, t);
    let co = opref_of(t);
    let rar = t.requests.rarity;
    if is_default_web(p0) || is_favicon_web(p0) || !(p0 is Tcp) {
        let b = cat_bucket(cv, p0);
        lemma_bucket_add_effect(b, p0, rar, co, p);
        lemma_bucket_add_effect(b, p0, rar, co, p0);
        assert(cat_bucket(cv2, p0) == bucket_add(b, p0, rar, co));
        if cat_bucket(cv, p) == b && cat_bucket(cv2, p) == bucket_add(b, p0, rar, co) {
            if p == p0 {
                assert(probe_ops(cv2, p) =~= probe_ops(cv, p) + seq![co]);
            } else {
                assert(probe_ops(cv2, p) =~= probe_ops(cv, p) + Seq::<OpRef>::empty());
            }
        } else {
            assert(cat_bucket(cv2, p) == cat_bucket(cv, p));
            assert(p != p0);
            assert(probe_ops(cv2, p) =~= probe_ops(cv, p) + Seq::<OpRef>::empty());
        }
    } else if is_default_tcp(p0) {
        match cv.tcp_default {
            Option::Some(c) => {
                lemma_default_tcp_unique(c.probe, p0);
                assert(opt_seq(cv2.tcp_default) =~= seq![
                    ClusterView { ops: c.ops.push(co), ..c },
                ]);
                if p == p0 {
                    assert(bucket_key_idx(opt_seq(cv.tcp_default), p) == 0);
                    assert(bucket_key_idx(opt_seq(cv2.tcp_default), p) == 0);
                    assert(probe_ops(cv2, p) =~= probe_ops(cv, p) + seq![co]);
                } else if is_default_tcp(p) {
                    lemma_default_tcp_unique(p, p0);
                    assert(false);
                } else {
                    assert(cat_bucket(cv2, p) == cat_bucket(cv, p));
                    assert(probe_ops(cv2, p) =~= probe_ops(cv, p) + Seq::<OpRef>::empty());
                }
            },
            Option::None => {
                if p == p0 {
                    assert(opt_seq(cv2.tcp_default) =~= seq![
                        ClusterView { probe: p0, rarity: rar, ops: seq![co] },
                    ]);
                    assert(bucket_key_idx(opt_seq(cv2.tcp_default), p) == 0);
                    assert(bops(opt_seq(cv.tcp_default), p) =~= Seq::<OpRef>::empty());
                    assert(probe_ops(cv2, p) =~= probe_ops(cv, p) + seq![co]);
                } else if is_default_tcp(p) {
                    lemma_default_tcp_unique(p, p0);
                    assert(false);
                } else {
                    assert(cat_bucket(cv2, p) == cat_bucket(cv, p));
                    assert(probe_ops(cv2, p) =~= probe_ops(cv, p) + Seq::<OpRef>::empty());
                }
            },
        }
    } else {
        let s = cv.tcp_other;
        let b = tcp_clusters(s);
        lemma_tcp_idx_eq(s, p0);
        lemma_bucket_idx_props(b, p0);
        let i0 = tcp_key_idx(s, p0);
        if i0 < s.len() {
            assert(tcp_clusters(cv2.tcp_other) =~= bucket_add(b, p0, rar, co));
        } else {
            assert(tcp_clusters(cv2.tcp_other) =~= bucket_add(b, p0, rar, co));
        }
        lemma_bucket_add_effect(b, p0, rar, co, p);
        lemma_bucket_add_effect(b, p0, rar, co, p0);
        if p0 is Tcp && !is_default_tcp(p0) && p is Tcp && !is_default_tcp(p) {
            if p == p0 {
                assert(probe_ops(cv2, p) =~= probe_ops(cv, p) + seq![co]);
            } else {
                assert(probe_ops(cv2, p) =~= probe_ops(cv, p) + Seq::<OpRef>::empty());
            }
        } else {
            assert(cat_bucket(cv2, p) == cat_bucket(cv, p));
            assert(p != p0);
            assert(probe_ops(cv2, p) =~= probe_ops(cv, p) + Seq::<OpRef>::empty());
        }
    }
}

proof fn lemma_fold_ops(ts: Seq<Template>, cv: ClusterTypeView, p: ProbeView)
    requires
        ct_wf(cv),
    ensures
        ct_wf(cluster_fold(ts, cv)),
        probe_ops(cluster_fold(ts, cv), p) == probe_ops(cv, p) + ops_for(ts, p),
    decreases ts.len(),
{
    if ts.len() == 0 {
        assert(probe_ops(cv, p) + ops_for(ts, p) =~= probe_ops(cv, p));
    } else {
        let cv2 = add_template(cv, ts[0]);
        lemma_add_template_ops(cv, ts[0], p);
        lemma_fold_ops(ts.skip(1), cv2, p);
        assert(probe_ops(cv2, p) + ops_for(ts.skip(1), p) =~= probe_ops(cv, p) + ops_for(ts, p));
    }
}

/// Clustering is a partition by probe signature: in the result of
/// `cluster_fold` from the empty partition, every bucket holds pairwise
/// distinct probes, every cluster sits in the bucket its probe kind
/// selects, and the cluster of any probe `p` holds exactly the bound
/// operators of the templates whose probes equal `p`, in template order. So
/// templates with byte-identical probes share one cluster, and templates
/// whose probes differ anywhere land in distinct clusters.
pub proof fn lemma_cluster_partition(ts: Seq<Template>, p: ProbeView)
    ensures
        ct_wf(cluster_fold(ts, ct_empty())),
        probe_ops(cluster_fold(ts, ct_empty()), p) == ops_for(ts, p),
{
    lemma_fold_ops(ts, ct_empty(), p);
    assert(bops(cat_bucket(ct_empty(), p), p) =~= Seq::<OpRef>::empty());
    assert(probe_ops(ct_empty(), p) + ops_for(ts, p) =~= ops_for(ts, p));
}

/// The number of templates whose probe equals `p`.
pub open spec fn count_with(ts: Seq<Template>, p: ProbeView) -> int
    decreases ts.len(),
{
    if ts.len() == 0 {
        0
    } else {
        (if ts[0].requests.probe@ == p {
            1int
        } else {
            0int
        }) + count_with(ts.skip(1), p)
    }
}

proof fn lemma_ops_for_len(ts: Seq<Template>, p: ProbeView)
    ensures
        ops_for(ts, p).len() == count_with(ts, p),
    decreases ts.len(),
{
    if ts.len() == 0 {
    } else {
        lemma_ops_for_len(ts.skip(1), p);
    }
}

/// The cluster of probe `p` holds one bound operator per template with that
/// probe: two templates with byte-identical probes put exactly two bound
/// operators into one shared cluster.
pub proof fn lemma_cluster_size(ts: Seq<Template>, p: ProbeView)
    ensures
        probe_ops(cluster_fold(ts, ct_empty()), p).len() == count_with(ts, p),
{
    lemma_cluster_partition(ts, p);
    lemma_ops_for_len(ts, p);
}

/// One extractor whose part cannot be resolved is skipped and skipped
/// alone: the pass continues with the next extractor over an unchanged
/// extract map, so later extractors still contribute.
pub proof fn lemma_extractor_failure_skips(
    op: Operators,
    t: OperatorTarget,
    version: Option<Seq<(Seq<char>, Seq<char>)>>,
    i: int,
    ex: Seq<(Seq<char>, Seq<Seq<char>>)>,
)
    requires
        0 <= i < op.extractors@.len(),
        !part_ok(t, op.extractors@[i].part),
    ensures
        spec_extract_step(op.extractors@[i], i, t, version, ex) == ex,
        spec_extract_run(op, t, version, i, ex) == spec_extract_run(op, t, version, i + 1, ex),
{
}

} // verus!
