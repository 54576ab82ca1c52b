//! Cluster wiring: one `ClusteredOperator` binds a template's compiled
//! operator blocks to its reporting name and metadata and exposes the three
//! evaluation entry points; `cluster_templates` partitions templates by
//! probe-signature equality so each distinct probe is issued once, bucketed
//! by probe kind into a `ClusterType`.
use vstd::prelude::*;
use vstd::string::StrSliceExecFns;
use vstd::string::StringExecFns;

use crate::info::Info;
use crate::info::pairs_view;
use crate::info::version_view;
use crate::operators::OperatorResult;
use crate::operators::Operators;
use crate::operators::ResView;
use crate::operators::res_empty;
use crate::operators::spec_extract_top;
use crate::operators::spec_matcher_top;
use crate::strings::dec_digits;
use crate::strings::ends_with_seq;
use crate::strings::ends_with_str;
use crate::strings::first_idx;
use crate::strings::u64_to_dec;
use crate::matchers::meta_view;
use crate::target::OperatorTarget;
use crate::target::ResponseMeta;
use crate::target::ResponseTarget;
use crate::target::spec_absent_response;

verus! {

/// An inclusive port constraint attached to a TCP probe.
#[derive(Clone, Copy, Debug, PartialEq, Eq, Structural)]
pub struct PortRange {
    pub start: u16,
    pub end: u16,
}

/// The probe definition of a template: the byte-identical request text that
/// serves as the clustering equality key. Opaque to evaluation.
pub enum Probe {
    Web { method: String, path: String, headers: Vec<(String, String)>, body: String },
    Tcp { payload: String, port: Option<PortRange> },
}

/// The mathematical value of a probe signature.
#[verifier::ext_equal]
pub enum ProbeView {
    Web {
        method: Seq<char>,
        path: Seq<char>,
        headers: Seq<(Seq<char>, Seq<char>)>,
        body: Seq<char>,
    },
    Tcp { payload: Seq<char>, port: Option<PortRange> },
}

impl View for Probe {
    type V = ProbeView;

    open spec fn view(&self) -> ProbeView {
        match self {
            Probe::Web { method, path, headers, body } => ProbeView::Web {
                method: method@,
                path: path@,
                headers: pairs_view(headers@),
                body: body@,
            },
            Probe::Tcp { payload, port } => ProbeView::Tcp { payload: payload@, port: *port },
        }
    }
}

/// A template's request definition: its probe, its scheduling weight, and
/// its compiled operator blocks.
pub struct Requests {
    pub probe: Probe,
    pub rarity: u8,
    pub operators: Vec<Operators>,
}

/// A loaded detection template: its `name:hash` identity, its metadata and
/// its request definition.
pub struct Template {
    pub id: String,
    pub info: Info,
    pub requests: Requests,
}

/// The reporting label of a template: the text before the first `:` of its
/// identity, or the whole identity when it has no `:`.
pub open spec fn template_name(id: Seq<char>) -> Seq<char> {
    id.take(first_idx(id, ':') as int)
}

/// One record the sink receives: template name, metadata, result.
pub struct MatchRecord {
    pub template: String,
    pub info: Info,
    pub result: OperatorResult,
}

/// The mathematical value of a record: name, version hint, accumulator.
pub open spec fn record_view(r: MatchRecord) -> (
    Seq<char>,
    Option<Seq<(Seq<char>, Seq<char>)>>,
    ResView,
) {
    (r.template@, version_view(r.info.version), r.result@)
}

/// The values of a record list.
pub open spec fn events_view(s: Seq<MatchRecord>) -> Seq<
    (Seq<char>, Option<Seq<(Seq<char>, Seq<char>)>>, ResView),
> {
    Seq::new(s.len(), |i: int| record_view(s[i]))
}

/// The event sink of one evaluation: the response being matched (when one
/// exists) and the records the qualifying operator blocks pushed.
pub struct MatchEvent {
    pub response: Option<ResponseTarget>,
    pub events: Vec<MatchRecord>,
}

impl MatchEvent {
    /// An empty sink around an optional response.
    pub fn new(response: Option<ResponseTarget>) -> (r: Self)
        ensures
            r.response == response,
            r.events@.len() == 0,
    {
        MatchEvent { response, events: Vec::new() }
    }

    /// Accepts one record; never fails the caller.
    pub fn push(&mut self, template: &String, info: &Info, result: OperatorResult)
        ensures
            final(self).response == old(self).response,
            events_view(final(self).events@) == events_view(old(self).events@).push(
                (template@, version_view(info.version), result@),
            ),
    {
        let rec = MatchRecord {
            template: template.clone(),
            info: Info { version: info.get_version() },
            result,
        };
        let ghost pre = events_view(self.events@);
        self.events.push(rec);
        proof {
            assert(events_view(self.events@) =~= pre.push(
                (template@, version_view(info.version), result@),
            ));
        }
    }
}

/// What one operator block contributes against one target: nothing when its
/// matcher pass aborts or when it neither matched nor extracted; otherwise
/// the accumulator both passes left.
pub open spec fn block_result(
    op: Operators,
    t: OperatorTarget,
    meta: Option<ResponseMeta>,
    version: Option<Seq<(Seq<char>, Seq<char>)>>,
) -> Option<ResView> {
    let run = spec_matcher_top(op, t, meta, res_empty());
    if !run.ok {
        Option::None
    } else {
        let after = spec_extract_top(op, t, version, run.res);
        if after.matched || after.extract.len() > 0 {
            Option::Some(after)
        } else {
            Option::None
        }
    }
}

/// The records an ordered list of operator blocks pushes against one
/// target: one per qualifying block, errors crossing no block boundary.
pub open spec fn blocks_events(
    ops: Seq<Operators>,
    t: OperatorTarget,
    meta: Option<ResponseMeta>,
    version: Option<Seq<(Seq<char>, Seq<char>)>>,
    name: Seq<char>,
) -> Seq<(Seq<char>, Option<Seq<(Seq<char>, Seq<char>)>>, ResView)>
    decreases ops.len(),
{
    if ops.len() == 0 {
        Seq::empty()
    } else {
        (match block_result(ops[0], t, meta, version) {
            Option::Some(rv) => seq![(name, version, rv)],
            Option::None => Seq::empty(),
        }) + blocks_events(ops.skip(1), t, meta, version, name)
    }
}

/// The response a response-only pass evaluates: the sink's response, or the
/// absent stand-in.
pub open spec fn response_or_absent(o: Option<ResponseTarget>) -> ResponseTarget {
    match o {
        Option::Some(r) => r,
        Option::None => spec_absent_response(),
    }
}

/// One template's compiled operator blocks bound to its reporting name and
/// metadata; immutable once created.
pub struct ClusteredOperator {
    template: String,
    info: Info,
    operators: Vec<Operators>,
}

impl ClusteredOperator {
    /// The reporting name.
    pub closed spec fn spec_template(&self) -> Seq<char> {
        self.template@
    }

    /// The version hint of the bound metadata.
    pub closed spec fn spec_version(&self) -> Option<Seq<(Seq<char>, Seq<char>)>> {
        version_view(self.info.version)
    }

    /// The bound operator blocks.
    pub closed spec fn spec_operators(&self) -> Seq<Operators> {
        self.operators@
    }

    /// Binds a loaded template: the reporting name is the text of its
    /// identity before the first `:`.
    pub fn new(t: Template) -> (r: Self)
        ensures
            r.spec_template() == template_name(t.id@),
            r.spec_version() == version_view(t.info.version),
            r.spec_operators() == t.requests.operators@,
    {
        let Template { id, info, requests } = t;
        Self::bind(id, info, requests.operators)
    }

    /// Binds the parts of a template directly; clustering uses this once
    /// the probe has been split off.
    pub fn bind(id: String, info: Info, operators: Vec<Operators>) -> (r: Self)
        ensures
            r.spec_template() == template_name(id@),
            r.spec_version() == version_view(info.version),
            r.spec_operators() == operators@,
    {
        let j = crate::strings::find_char_from(id.as_str(), ':', 0);
        let template = String::from_str(id.as_str().substring_char(0, j));
        proof {
            assert(id@.skip(0) =~= id@);
            assert(id@.take(j as int) =~= id@.subrange(0, j as int));
            assert(template@ =~= template_name(id@));
        }
        ClusteredOperator { template, info, operators }
    }

    /// The response-only pass: every block runs against the sink's response
    /// (the absent stand-in when there is none); a block whose matcher pass
    /// aborts contributes nothing and the remaining blocks still run.
    pub fn matcher(&self, results: &mut MatchEvent)
        ensures
            final(results).response == old(results).response,
            events_view(final(results).events@) == events_view(old(results).events@)
                + blocks_events(
                self.spec_operators(),
                response_or_absent(old(results).response).target,
                Option::Some(response_or_absent(old(results).response).meta),
                self.spec_version(),
                self.spec_template(),
            ),
    {
        let ghost rt0 = response_or_absent(results.response);
        let ghost opsv = self.operators@;
        let ghost init = events_view(results.events@);
        let ghost full = blocks_events(
            opsv,
            rt0.target,
            Option::Some(rt0.meta),
            self.spec_version(),
            self.spec_template(),
        );
        let mut k: usize = 0;
        proof {
            assert(opsv.skip(0) =~= opsv);
            assert(init + full =~= events_view(results.events@) + blocks_events(
                opsv.skip(0),
                rt0.target,
                Option::Some(rt0.meta),
                self.spec_version(),
                self.spec_template(),
            ));
        }
        while k < self.operators.len()
            invariant
                k <= opsv.len(),
                opsv == self.operators@,
                init == events_view(old(results).events@),
                rt0 == response_or_absent(old(results).response),
                full == blocks_events(
                    opsv,
                    rt0.target,
                    Option::Some(rt0.meta),
                    self.spec_version(),
                    self.spec_template(),
                ),
                results.response == old(results).response,
                init + full == events_view(results.events@) + blocks_events(
                    opsv.skip(k as int),
                    rt0.target,
                    Option::Some(rt0.meta),
                    self.spec_version(),
                    self.spec_template(),
                ),
            decreases opsv.len() - k,
        {
            let ghost rest = opsv.skip(k as int);
            let op = &self.operators[k];
            let mut result = OperatorResult::default();
            let ok: bool = match &results.response {
                Option::Some(rt) => {
                    match op.matcher(rt, &mut result) {
                        Result::Ok(()) => {
                            op.extractor(self.info.get_version(), rt, &mut result);
                            true
                        },
                        Result::Err(_) => false,
                    }
                },
                Option::None => {
                    let rt = ResponseTarget::absent();
                    match op.matcher(&rt, &mut result) {
                        Result::Ok(()) => {
                            op.extractor(self.info.get_version(), &rt, &mut result);
                            true
                        },
                        Result::Err(_) => false,
                    }
                },
            };
            proof {
                assert(rest[0] == opsv[k as int]);
                assert(rest.skip(1) =~= opsv.skip(k + 1));
            }
            if ok && (result.is_matched() || result.is_extract()) {
                proof {
                    assert(block_result(
                        opsv[k as int],
                        rt0.target,
                        Option::Some(rt0.meta),
                        self.spec_version(),
                    ) == Option::Some(result@));
                }
                results.push(&self.template, &self.info, result);
            } else {
                proof {
                    assert(block_result(
                        opsv[k as int],
                        rt0.target,
                        Option::Some(rt0.meta),
                        self.spec_version(),
                    ) is None);
                }
            }
            proof {
                assert(init + full =~= events_view(results.events@) + blocks_events(
                    opsv.skip(k + 1),
                    rt0.target,
                    Option::Some(rt0.meta),
                    self.spec_version(),
                    self.spec_template(),
                ));
            }
            k += 1;
        }
        proof {
            assert(opsv.skip(opsv.len() as int) =~= Seq::<Operators>::empty());
            assert(events_view(results.events@) =~= init + full);
        }
    }

    /// The request-only pass: identical logic against a given target, with
    /// optional response metadata for the status and favicon kinds.
    pub fn matcher_request(
        &self,
        request: &OperatorTarget,
        response: Option<&ResponseMeta>,
        results: &mut MatchEvent,
    )
        ensures
            final(results).response == old(results).response,
            events_view(final(results).events@) == events_view(old(results).events@)
                + blocks_events(
                self.spec_operators(),
                *request,
                meta_view(response),
                self.spec_version(),
                self.spec_template(),
            ),
    {
        let ghost opsv = self.operators@;
        let ghost init = events_view(results.events@);
        let ghost full = blocks_events(
            opsv,
            *request,
            meta_view(response),
            self.spec_version(),
            self.spec_template(),
        );
        let mut k: usize = 0;
        proof {
            assert(opsv.skip(0) =~= opsv);
            assert(init + full =~= events_view(results.events@) + blocks_events(
                opsv.skip(0),
                *request,
                meta_view(response),
                self.spec_version(),
                self.spec_template(),
            ));
        }
        while k < self.operators.len()
            invariant
                k <= opsv.len(),
                opsv == self.operators@,
                init == events_view(old(results).events@),
                meta_view(response) == meta_view(response),
                full == blocks_events(
                    opsv,
                    *request,
                    meta_view(response),
                    self.spec_version(),
                    self.spec_template(),
                ),
                results.response == old(results).response,
                init + full == events_view(results.events@) + blocks_events(
                    opsv.skip(k as int),
                    *request,
                    meta_view(response),
                    self.spec_version(),
                    self.spec_template(),
                ),
            decreases opsv.len() - k,
        {
            let ghost rest = opsv.skip(k as int);
            let op = &self.operators[k];
            let mut result = OperatorResult::default();
            let ok: bool = match op.matcher_generic(request, response, &mut result) {
                Result::Ok(()) => {
                    op.extractor_generic(self.info.get_version(), request, &mut result);
                    true
                },
                Result::Err(_) => false,
            };
            proof {
                assert(rest[0] == opsv[k as int]);
                assert(rest.skip(1) =~= opsv.skip(k + 1));
            }
            if ok && (result.is_matched() || result.is_extract()) {
                proof {
                    assert(block_result(
                        opsv[k as int],
                        *request,
                        meta_view(response),
                        self.spec_version(),
                    ) == Option::Some(result@));
                }
                results.push(&self.template, &self.info, result);
            } else {
                proof {
                    assert(block_result(
                        opsv[k as int],
                        *request,
                        meta_view(response),
                        self.spec_version(),
                    ) is None);
                }
            }
            proof {
                assert(init + full =~= events_view(results.events@) + blocks_events(
                    opsv.skip(k + 1),
                    *request,
                    meta_view(response),
                    self.spec_version(),
                    self.spec_template(),
                ));
            }
            k += 1;
        }
        proof {
            assert(opsv.skip(opsv.len() as int) =~= Seq::<Operators>::empty());
            assert(events_view(results.events@) =~= init + full);
        }
    }

    /// The combined pass: the request-only pass first, then the
    /// response-only pass, into the same sink; both can contribute.
    pub fn matcher_both(
        &self,
        request: &OperatorTarget,
        response: &ResponseTarget,
        results: &mut MatchEvent,
    )
        ensures
            final(results).response == old(results).response,
            events_view(final(results).events@) == events_view(old(results).events@)
                + blocks_events(
                self.spec_operators(),
                *request,
                Option::Some(response.meta),
                self.spec_version(),
                self.spec_template(),
            ) + blocks_events(
                self.spec_operators(),
                response_or_absent(old(results).response).target,
                Option::Some(response_or_absent(old(results).response).meta),
                self.spec_version(),
                self.spec_template(),
            ),
    {
        self.matcher_request(request, Option::Some(&response.meta), results);
        self.matcher(results);
    }
}

/// One executable unit: a probe issued once, a scheduling weight, and every
/// template whose probe is byte-identical to it.
pub struct ClusterExecute {
    pub probe: Probe,
    pub rarity: u8,
    pub operators: Vec<ClusteredOperator>,
}

/// The value of one bound template inside a cluster.
#[verifier::ext_equal]
pub struct OpRef {
    pub name: Seq<char>,
    pub version: Option<Seq<(Seq<char>, Seq<char>)>>,
    pub blocks: Seq<Operators>,
}

/// The value of one `ClusteredOperator`.
pub open spec fn co_view(op: ClusteredOperator) -> OpRef {
    OpRef { name: op.spec_template(), version: op.spec_version(), blocks: op.spec_operators() }
}

/// The value of one cluster.
#[verifier::ext_equal]
pub struct ClusterView {
    pub probe: ProbeView,
    pub rarity: u8,
    pub ops: Seq<OpRef>,
}

/// The value of a `ClusterExecute`.
pub open spec fn cluster_view(ce: ClusterExecute) -> ClusterView {
    ClusterView {
        probe: ce.probe@,
        rarity: ce.rarity,
        ops: Seq::new(ce.operators@.len(), |i: int| co_view(ce.operators@[i])),
    }
}

/// The values of one bucket.
pub open spec fn bucket_view(b: Seq<ClusterExecute>) -> Seq<ClusterView> {
    Seq::new(b.len(), |i: int| cluster_view(b[i]))
}

/// The five probe buckets: the canonical web probe, favicon probes, other
/// web probes, the canonical TCP probe (at most one), other TCP probes
/// keyed by signature, and the port constraints recorded under the same
/// keys.
pub struct ClusterType {
    pub web_default: Vec<ClusterExecute>,
    pub web_favicon: Vec<ClusterExecute>,
    pub web_other: Vec<ClusterExecute>,
    pub tcp_default: Option<ClusterExecute>,
    pub tcp_other: Vec<(String, ClusterExecute)>,
    pub port_range: Vec<(String, Option<PortRange>)>,
}

/// The value of a whole `ClusterType`.
#[verifier::ext_equal]
pub struct ClusterTypeView {
    pub web_default: Seq<ClusterView>,
    pub web_favicon: Seq<ClusterView>,
    pub web_other: Seq<ClusterView>,
    pub tcp_default: Option<ClusterView>,
    pub tcp_other: Seq<(Seq<char>, ClusterView)>,
    pub port_range: Seq<(Seq<char>, Option<PortRange>)>,
}

/// The values of the keyed TCP bucket.
pub open spec fn tcp_other_view(s: Seq<(String, ClusterExecute)>) -> Seq<
    (Seq<char>, ClusterView),
> {
    Seq::new(s.len(), |i: int| (s[i].0@, cluster_view(s[i].1)))
}

impl View for ClusterType {
    type V = ClusterTypeView;

    open spec fn view(&self) -> ClusterTypeView {
        ClusterTypeView {
            web_default: bucket_view(self.web_default@),
            web_favicon: bucket_view(self.web_favicon@),
            web_other: bucket_view(self.web_other@),
            tcp_default: match self.tcp_default {
                Option::Some(ce) => Option::Some(cluster_view(ce)),
                Option::None => Option::None,
            },
            tcp_other: tcp_other_view(self.tcp_other@),
            port_range: Seq::new(
                self.port_range@.len(),
                |i: int| (self.port_range@[i].0@, self.port_range@[i].1),
            ),
        }
    }
}

/// The empty partition.
pub open spec fn ct_empty() -> ClusterTypeView {
    ClusterTypeView {
        web_default: Seq::empty(),
        web_favicon: Seq::empty(),
        web_other: Seq::empty(),
        tcp_default: Option::None,
        tcp_other: Seq::empty(),
        port_range: Seq::empty(),
    }
}

/// The canonical `GET /` web probe most web templates share.
pub open spec fn is_default_web(p: ProbeView) -> bool {
    &&& p matches ProbeView::Web { method, path, headers, body } && method == "GET"@ && path
        == "/"@ && headers.len() == 0 && body.len() == 0
}

/// A dedicated favicon-fetch probe.
pub open spec fn is_favicon_web(p: ProbeView) -> bool {
    p matches ProbeView::Web { path, .. } && ends_with_seq(path, "favicon.ico"@)
}

/// The canonical TCP probe: a bare connect, no payload, no port constraint.
pub open spec fn is_default_tcp(p: ProbeView) -> bool {
    p matches ProbeView::Tcp { payload, port } && payload.len() == 0 && port is None
}

/// The signature key of a TCP probe: the payload length in decimal, a
/// colon, the payload, and the port constraint when there is one.
pub open spec fn tcp_key(payload: Seq<char>, port: Option<PortRange>) -> Seq<char> {
    dec_digits(payload.len()) + seq![':'] + payload + (match port {
        Option::Some(pr) => seq![':'] + dec_digits(pr.start as nat) + seq!['-'] + dec_digits(
            pr.end as nat,
        ),
        Option::None => Seq::empty(),
    })
}

/// The signature key of a probe; empty for web probes, which are not keyed.
pub open spec fn probe_tcp_key(p: ProbeView) -> Seq<char> {
    match p {
        ProbeView::Tcp { payload, port } => tcp_key(payload, port),
        _ => Seq::empty(),
    }
}

/// The port constraint a probe carries.
pub open spec fn probe_port(p: ProbeView) -> Option<PortRange> {
    match p {
        ProbeView::Tcp { port, .. } => port,
        _ => Option::None,
    }
}

/// First cluster of a bucket with the given probe; the length when none.
pub open spec fn bucket_key_idx(b: Seq<ClusterView>, p: ProbeView) -> nat
    decreases b.len(),
{
    if b.len() == 0 {
        0
    } else if b[0].probe == p {
        0
    } else {
        1 + bucket_key_idx(b.skip(1), p)
    }
}

/// Find-or-insert of one bound template into a bucket, by probe equality.
pub open spec fn bucket_add(b: Seq<ClusterView>, p: ProbeView, rarity: u8, co: OpRef) -> Seq<
    ClusterView,
> {
    let i = bucket_key_idx(b, p);
    if i < b.len() {
        b.update(i as int, ClusterView { ops: b[i as int].ops.push(co), ..b[i as int] })
    } else {
        b.push(ClusterView { probe: p, rarity, ops: seq![co] })
    }
}

/// First keyed TCP cluster with the given probe; the length when none.
pub open spec fn tcp_key_idx(s: Seq<(Seq<char>, ClusterView)>, p: ProbeView) -> nat
    decreases s.len(),
{
    if s.len() == 0 {
        0
    } else if s[0].1.probe == p {
        0
    } else {
        1 + tcp_key_idx(s.skip(1), p)
    }
}

/// Clustering one template: its bound operator joins the cluster of its
/// probe in the bucket its probe kind selects, creating the cluster (and,
/// for a keyed TCP probe, the port-range entry) when the probe is new.
pub open spec fn add_template(cv: ClusterTypeView, t: Template) -> ClusterTypeView {
    let p = t.requests.probe@;
    let co = OpRef {
        name: template_name(t.id@),
        version: version_view(t.info.version),
        blocks: t.requests.operators@,
    };
    let rar = t.requests.rarity;
    if is_default_web(p) {
        ClusterTypeView { web_default: bucket_add(cv.web_default, p, rar, co), ..cv }
    } else if is_favicon_web(p) {
        ClusterTypeView { web_favicon: bucket_add(cv.web_favicon, p, rar, co), ..cv }
    } else if !(p is Tcp) {
        ClusterTypeView { web_other: bucket_add(cv.web_other, p, rar, co), ..cv }
    } else if is_default_tcp(p) {
        ClusterTypeView {
            tcp_default: match cv.tcp_default {
                Option::Some(ce) => Option::Some(ClusterView { ops: ce.ops.push(co), ..ce }),
                Option::None => Option::Some(ClusterView { probe: p, rarity: rar, ops: seq![co] }),
            },
            ..cv
        }
    } else {
        let i = tcp_key_idx(cv.tcp_other, p);
        if i < cv.tcp_other.len() {
            ClusterTypeView {
                tcp_other: cv.tcp_other.update(
                    i as int,
                    (
                        cv.tcp_other[i as int].0,
                        ClusterView {
                            ops: cv.tcp_other[i as int].1.ops.push(co),
                            ..cv.tcp_other[i as int].1
                        },
                    ),
                ),
                ..cv
            }
        } else {
            ClusterTypeView {
                tcp_other: cv.tcp_other.push(
                    (probe_tcp_key(p), ClusterView { probe: p, rarity: rar, ops: seq![co] }),
                ),
                port_range: cv.port_range.push((probe_tcp_key(p), probe_port(p))),
                ..cv
            }
        }
    }
}

/// Clustering a template list, in order.
pub open spec fn cluster_fold(ts: Seq<Template>, cv: ClusterTypeView) -> ClusterTypeView
    decreases ts.len(),
{
    if ts.len() == 0 {
        cv
    } else {
        cluster_fold(ts.skip(1), add_template(cv, ts[0]))
    }
}

/// The number of clusters a partition holds.
pub open spec fn spec_count(c: ClusterTypeView) -> int {
    c.web_default.len() + c.web_favicon.len() + c.web_other.len() + c.tcp_other.len() + (
    if c.tcp_default is Some {
        1int
    } else {
        0int
    })
}

impl ClusterType {
    /// An empty partition.
    pub fn new() -> (c: Self)
        ensures
            c@ == ct_empty(),
    {
        let c = ClusterType {
            web_default: Vec::new(),
            web_favicon: Vec::new(),
            web_other: Vec::new(),
            tcp_default: Option::None,
            tcp_other: Vec::new(),
            port_range: Vec::new(),
        };
        proof {
            assert(c@ =~= ct_empty());
        }
        c
    }

    /// The exact number of clusters: the sum of all bucket sizes, counting
    /// at most one canonical TCP cluster.
    pub fn count(&self) -> (r: usize)
        requires
            spec_count(self@) <= usize::MAX,
        ensures
            r == spec_count(self@),
    {
        let mut count = self.web_default.len() + self.web_other.len();
        count = count + self.web_favicon.len();
        count = count + self.tcp_other.len();
        if self.tcp_default.is_some() {
            count = count + 1;
        }
        count
    }
}

fn pairs_eq(h1: &Vec<(String, String)>, h2: &Vec<(String, String)>) -> (r: bool)
    ensures
        r == (pairs_view(h1@) == pairs_view(h2@)),
{
    if h1.len() != h2.len() {
        proof {
            assert(pairs_view(h1@).len() != pairs_view(h2@).len());
        }
        return false;
    }
    let mut i: usize = 0;
    while i < h1.len()
        invariant
            i <= h1.len(),
            h1@.len() == h2@.len(),
            forall|k: int| 0 <= k < i ==> pairs_view(h1@)[k] == pairs_view(h2@)[k],
        decreases h1.len() - i,
    {
        if !(h1[i].0 == h2[i].0 && h1[i].1 == h2[i].1) {
            proof {
                assert(pairs_view(h1@)[i as int] != pairs_view(h2@)[i as int]);
            }
            return false;
        }
        proof {
            assert(pairs_view(h1@)[i as int] == pairs_view(h2@)[i as int]);
        }
        i += 1;
    }
    proof {
        assert(pairs_view(h1@) =~= pairs_view(h2@));
    }
    true
}

fn probe_eq(a: &Probe, b: &Probe) -> (r: bool)
    ensures
        r == (a@ == b@),
{
    match (a, b) {
        (
            Probe::Web { method: m1, path: p1, headers: h1, body: b1 },
            Probe::Web { method: m2, path: p2, headers: h2, body: b2 },
        ) => {
            proof {
                assert(a@ == (ProbeView::Web {
                    method: m1@,
                    path: p1@,
                    headers: pairs_view(h1@),
                    body: b1@,
                }));
                assert(b@ == (ProbeView::Web {
                    method: m2@,
                    path: p2@,
                    headers: pairs_view(h2@),
                    body: b2@,
                }));
            }
            if !(*m1 == *m2 && *p1 == *p2 && *b1 == *b2) {
                return false;
            }
            if pairs_eq(h1, h2) {
                proof {
                    assert(a@ =~= b@);
                }
                true
            } else {
                false
            }
        },
        (Probe::Tcp { payload: pl1, port: pt1 }, Probe::Tcp { payload: pl2, port: pt2 }) => {
            if !(*pl1 == *pl2) {
                return false;
            }
            let ports_equal: bool = match (pt1, pt2) {
                (Option::Some(x), Option::Some(y)) => x.start == y.start && x.end == y.end,
                (Option::None, Option::None) => true,
                _ => false,
            };
            if ports_equal {
                proof {
                    assert(a@ =~= b@);
                }
            }
            ports_equal
        },
        _ => false,
    }
}

proof fn lemma_bucket_idx_at(b: Seq<ClusterView>, p: ProbeView, i: int)
    requires
        0 <= i <= b.len(),
        forall|k: int| 0 <= k < i ==> b[k].probe != p,
        i < b.len() ==> b[i].probe == p,
    ensures
        bucket_key_idx(b, p) == if i < b.len() {
            i as nat
        } else {
            b.len()
        },
    decreases b.len(),
{
    if b.len() == 0 {
    } else if i == 0 {
        if b[0].probe != p {
            lemma_bucket_idx_at(b.skip(1), p, i);
            assert forall|k: int| 0 <= k < b.skip(1).len() implies b.skip(1)[k].probe != p by {
                assert(b.skip(1)[k] == b[k + 1]);
            }
        }
    } else {
        lemma_bucket_idx_at(b.skip(1), p, i - 1);
    }
}

proof fn lemma_tcp_idx_at(s: Seq<(Seq<char>, ClusterView)>, p: ProbeView, i: int)
    requires
        0 <= i <= s.len(),
        forall|k: int| 0 <= k < i ==> s[k].1.probe != p,
        i < s.len() ==> s[i].1.probe == p,
    ensures
        tcp_key_idx(s, p) == if i < s.len() {
            i as nat
        } else {
            s.len()
        },
    decreases s.len(),
{
    if s.len() == 0 {
    } else if i == 0 {
        if s[0].1.probe != p {
            lemma_tcp_idx_at(s.skip(1), p, i);
            assert forall|k: int| 0 <= k < s.skip(1).len() implies s.skip(1)[k].1.probe != p by {
                assert(s.skip(1)[k] == s[k + 1]);
            }
        }
    } else {
        lemma_tcp_idx_at(s.skip(1), p, i - 1);
    }
}

fn push_bucket(bucket: &mut Vec<ClusterExecute>, probe: Probe, rarity: u8, op: ClusteredOperator)
    ensures
        bucket_view(final(bucket)@) == bucket_add(
            bucket_view(old(bucket)@),
            probe@,
            rarity,
            co_view(op),
        ),
{
    let ghost bv = bucket_view(bucket@);
    let ghost cov = co_view(op);
    let mut j: usize = 0;
    while j < bucket.len()
        invariant
            j <= bucket.len(),
            bv == bucket_view(bucket@),
            bv == bucket_view(old(bucket)@),
            cov == co_view(op),
            forall|k: int| 0 <= k < j ==> bv[k].probe != probe@,
        decreases bucket.len() - j,
    {
        if probe_eq(&bucket[j].probe, &probe) {
            proof {
                assert(bv[j as int].probe == probe@);
                lemma_bucket_idx_at(bv, probe@, j as int);
            }
            let mut ce = bucket.remove(j);
            let ghost cev = cluster_view(ce);
            ce.operators.push(op);
            proof {
                assert(cluster_view(ce) =~= (ClusterView { ops: cev.ops.push(cov), ..cev }));
            }
            bucket.insert(j, ce);
            proof {
                assert(bucket_view(bucket@) =~= bv.update(
                    j as int,
                    ClusterView { ops: bv[j as int].ops.push(cov), ..bv[j as int] },
                ));
            }
            return ;
        }
        j += 1;
    }
    proof {
        lemma_bucket_idx_at(bv, probe@, bv.len() as int);
    }
    let mut operators: Vec<ClusteredOperator> = Vec::new();
    operators.push(op);
    let ce = ClusterExecute { probe, rarity, operators };
    proof {
        assert(cluster_view(ce) =~= (ClusterView { probe: ce.probe@, rarity, ops: seq![cov] }));
    }
    bucket.push(ce);
    proof {
        assert(bucket_view(bucket@) =~= bv.push(
            ClusterView { probe: ce.probe@, rarity, ops: seq![cov] },
        ));
    }
}

fn tcp_signature(payload: &String, port: &Option<PortRange>) -> (k: String)
    ensures
        k@ == tcp_key(payload@, *port),
{
    proof {
        reveal_strlit(":");
        reveal_strlit("-");
    }
    let mut k = u64_to_dec(payload.unicode_len() as u64);
    k.append(":");
    k.append(payload.as_str());
    match port {
        Option::Some(pr) => {
            k.append(":");
            let s = u64_to_dec(pr.start as u64);
            k.append(s.as_str());
            k.append("-");
            let e = u64_to_dec(pr.end as u64);
            k.append(e.as_str());
        },
        Option::None => {},
    }
    proof {
        assert(":"@ =~= seq![':']);
        assert("-"@ =~= seq!['-']);
        assert(k@ =~= tcp_key(payload@, *port));
    }
    k
}

fn find_tcp_cluster(s: &Vec<(String, ClusterExecute)>, probe: &Probe) -> (r: Option<usize>)
    ensures
        match r {
            Option::Some(j) => j < s@.len() && tcp_other_view(s@)[j as int].1.probe == probe@
                && tcp_key_idx(tcp_other_view(s@), probe@) == j,
            Option::None => tcp_key_idx(tcp_other_view(s@), probe@) == s@.len(),
        },
{
    let ghost tov = tcp_other_view(s@);
    let mut j: usize = 0;
    while j < s.len()
        invariant
            j <= s@.len(),
            tov == tcp_other_view(s@),
            forall|k: int| 0 <= k < j ==> tov[k].1.probe != probe@,
        decreases s@.len() - j,
    {
        if probe_eq(&s[j].1.probe, probe) {
            proof {
                assert(tov[j as int].1.probe == probe@);
                lemma_tcp_idx_at(tov, probe@, j as int);
            }
            return Option::Some(j);
        }
        j += 1;
    }
    proof {
        lemma_tcp_idx_at(tov, probe@, tov.len() as int);
    }
    Option::None
}

/// Partitions templates by probe-signature equality: templates with
/// byte-identical probes share one cluster, every distinct probe founds its
/// own, and each lands in the bucket its kind selects. Clustering cannot
/// fail: an uncategorized probe still lands in an "other" bucket.
pub fn cluster_templates(templates: Vec<Template>) -> (c: ClusterType)
    ensures
        c@ == cluster_fold(templates@, ct_empty()),
{
    let ghost orig = templates@;
    let mut templates = templates;
    let mut c = ClusterType::new();
    while templates.len() > 0
        invariant
            cluster_fold(orig, ct_empty()) == cluster_fold(templates@, c@),
        decreases templates@.len(),
    {
        let ghost pre_ts = templates@;
        let ghost pre_c = c@;
        let t = templates.remove(0);
        proof {
            assert(templates@ =~= pre_ts.skip(1));
        }
        let ghost p = t.requests.probe@;
        let Template { id, info, requests } = t;
        let Requests { probe, rarity, operators } = requests;
        let op = ClusteredOperator::bind(id, info, operators);
        let is_web: bool = matches!(&probe, Probe::Web { .. });
        if is_web {
            let default_web: bool = match &probe {
                Probe::Web { method, path, headers, body } => *method == String::from_str("GET")
                    && *path == String::from_str("/") && headers.len() == 0
                    && body.unicode_len() == 0,
                _ => false,
            };
            let favicon_web: bool = match &probe {
                Probe::Web { path, .. } => ends_with_str(path.as_str(), "favicon.ico"),
                _ => false,
            };
            if default_web {
                push_bucket(&mut c.web_default, probe, rarity, op);
            } else if favicon_web {
                push_bucket(&mut c.web_favicon, probe, rarity, op);
            } else {
                push_bucket(&mut c.web_other, probe, rarity, op);
            }
            proof {
                assert(c@ =~= add_template(pre_c, pre_ts[0]));
            }
        } else {
            let (payload, port): (String, Option<PortRange>) = match &probe {
                Probe::Tcp { payload, port } => (payload.clone(), *port),
                _ => (String::new(), Option::None),
            };
            let default_tcp: bool = payload.unicode_len() == 0 && port.is_none();
            if default_tcp {
                let prev = c.tcp_default;
                match prev {
                    Option::Some(mut ce) => {
                        let ghost cev = cluster_view(ce);
                        ce.operators.push(op);
                        proof {
                            assert(cluster_view(ce) =~= (ClusterView {
                                ops: cev.ops.push(co_view(op)),
                                ..cev
                            }));
                        }
                        c.tcp_default = Option::Some(ce);
                    },
                    Option::None => {
                        let mut ops_vec: Vec<ClusteredOperator> = Vec::new();
                        ops_vec.push(op);
                        let ce = ClusterExecute { probe, rarity, operators: ops_vec };
                        proof {
                            assert(cluster_view(ce) =~= (ClusterView {
                                probe: p,
                                rarity,
                                ops: seq![co_view(ce.operators@[0])],
                            }));
                        }
                        c.tcp_default = Option::Some(ce);
                    },
                }
                proof {
                    assert(c@ =~= add_template(pre_c, pre_ts[0]));
                }
            } else {
                let ghost tov = c@.tcp_other;
                match find_tcp_cluster(&c.tcp_other, &probe) {
                    Option::Some(j) => {
                        let mut entry = c.tcp_other.remove(j);
                        let ghost cev = cluster_view(entry.1);
                        entry.1.operators.push(op);
                        proof {
                            assert(cluster_view(entry.1) =~= (ClusterView {
                                ops: cev.ops.push(co_view(op)),
                                ..cev
                            }));
                        }
                        c.tcp_other.insert(j, entry);
                        proof {
                            assert(c@.tcp_other =~= tov.update(
                                j as int,
                                (
                                    tov[j as int].0,
                                    ClusterView { ops: cev.ops.push(co_view(op)), ..cev },
                                ),
                            ));
                            assert(c@ =~= add_template(pre_c, pre_ts[0]));
                        }
                    },
                    Option::None => {
                        let key = tcp_signature(&payload, &port);
                        let key2 = key.clone();
                        let mut ops_vec: Vec<ClusteredOperator> = Vec::new();
                        ops_vec.push(op);
                        let ce = ClusterExecute { probe, rarity, operators: ops_vec };
                        proof {
                            assert(cluster_view(ce) =~= (ClusterView {
                                probe: p,
                                rarity,
                                ops: seq![co_view(ce.operators@[0])],
                            }));
                        }
                        c.tcp_other.push((key, ce));
                        c.port_range.push((key2, port));
                        proof {
                            assert(c@ =~= add_template(pre_c, pre_ts[0]));
                        }
                    },
                }
            }
        }
        proof {
            assert(cluster_fold(pre_ts, pre_c) == cluster_fold(templates@, c@));
        }
    }
    proof {
        assert(cluster_fold(templates@, c@) == c@);
    }
    c
}

} // verus!
