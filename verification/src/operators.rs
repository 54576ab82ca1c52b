//! The operator interpreter: an ordered matcher set combined under an
//! AND/OR condition (with optional first-match short-circuit) plus an
//! ordered extractor set, evaluated against one content target into a
//! per-call accumulator. Matcher retrieval failure aborts the whole matcher
//! pass; extractor retrieval failure skips only that extractor. Both passes
//! are specified by the recursive run functions below, which the laws about
//! OR, AND, short-circuiting and negation are proved from.
use vstd::prelude::*;

use crate::Error;
use crate::extractors::Extractor;
use crate::extractors::extract_values;
use crate::extractors::version_entries;
use crate::info::Version;
use crate::info::version_view;
use crate::matchers::Condition;
use crate::matchers::Matcher;
use crate::matchers::eval_match;
use crate::matchers::favicon_abort;
use crate::matchers::match_words;
use crate::matchers::meta_view;
use crate::strings::clone_string_vec;
use crate::strings::dec_digits;
use crate::strings::dedup_all;
use crate::strings::dedup_insert;
use crate::strings::insert_unique;
use crate::strings::extend_unique;
use crate::strings::u64_to_dec;
use crate::target::OperatorTarget;
use crate::target::ResponseMeta;
use crate::target::ResponseTarget;
use crate::target::part_ok;
use crate::target::part_text_or_empty;
use crate::target::part_words;

verus! {

/// The operators of one request: matchers under a condition, extractors,
/// and the short-circuit flag. Evaluation order is declaration order.
pub struct Operators {
    /// Stop the matcher pass as soon as a match is found (OR only).
    pub stop_at_first_match: bool,
    /// The condition between the matchers.
    pub matchers_condition: Condition,
    /// The detection mechanisms, evaluated in order.
    pub matchers: Vec<Matcher>,
    /// The extraction mechanisms, evaluated in order.
    pub extractors: Vec<Extractor>,
}

/// The mutable accumulator of one evaluation: matched flag, matched rule
/// names (set semantics), matched words (ordered, duplicates kept) and the
/// extracted key-to-value-set map (keys unique, values deduplicated).
pub struct OperatorResult {
    matched: bool,
    name: Vec<String>,
    matcher_word: Vec<String>,
    extract_result: Vec<(String, Vec<String>)>,
}

/// The mathematical value of an accumulator.
#[verifier::ext_equal]
pub struct ResView {
    pub matched: bool,
    pub name: Seq<Seq<char>>,
    pub matcher_word: Seq<Seq<char>>,
    pub extract: Seq<(Seq<char>, Seq<Seq<char>>)>,
}

/// The association list of an extract map, by text.
pub open spec fn extract_view(v: Seq<(String, Vec<String>)>) -> Seq<(Seq<char>, Seq<Seq<char>>)> {
    Seq::new(v.len(), |i: int| (v[i].0@, v[i].1.deep_view()))
}

impl View for OperatorResult {
    type V = ResView;

    closed spec fn view(&self) -> ResView {
        ResView {
            matched: self.matched,
            name: self.name.deep_view(),
            matcher_word: self.matcher_word.deep_view(),
            extract: extract_view(self.extract_result@),
        }
    }
}

/// The accumulator every evaluation starts from.
pub open spec fn res_empty() -> ResView {
    ResView {
        matched: false,
        name: Seq::empty(),
        matcher_word: Seq::empty(),
        extract: Seq::empty(),
    }
}

impl Default for Operators {
    /// An empty operator set: OR condition, no short-circuit, nothing to
    /// run.
    fn default() -> (r: Self)
        ensures
            !r.stop_at_first_match,
            r.matchers_condition == Condition::Or,
            r.matchers@.len() == 0,
            r.extractors@.len() == 0,
    {
        Operators {
            stop_at_first_match: false,
            matchers_condition: Condition::Or,
            matchers: Vec::new(),
            extractors: Vec::new(),
        }
    }
}

impl Default for OperatorResult {
    /// A fresh accumulator: unmatched, nothing recorded.
    fn default() -> (r: Self)
        ensures
            r@ == res_empty(),
    {
        let r = OperatorResult {
            matched: false,
            name: Vec::new(),
            matcher_word: Vec::new(),
            extract_result: Vec::new(),
        };
        proof {
            assert(r@ =~= res_empty());
        }
        r
    }
}

impl OperatorResult {
    /// Whether the matcher pass reported a match.
    pub fn is_matched(&self) -> (r: bool)
        ensures
            r == self@.matched,
    {
        self.matched
    }

    /// Whether the extractor pass produced anything.
    pub fn is_extract(&self) -> (r: bool)
        ensures
            r == (self@.extract.len() > 0),
    {
        self.extract_result.len() > 0
    }

    /// The matched rule names, in first-match order.
    pub fn name(&self) -> (r: Vec<String>)
        ensures
            r.deep_view() == self@.name,
    {
        let r = clone_string_vec(&self.name);
        proof {
            assert(r.deep_view() =~= self.name.deep_view());
        }
        r
    }

    /// The matched words followed by the matched rule names.
    pub fn matcher_word(&self) -> (r: Vec<String>)
        ensures
            r.deep_view() == self@.matcher_word + self@.name,
    {
        let mut r = clone_string_vec(&self.matcher_word);
        let mut names = clone_string_vec(&self.name);
        r.append(&mut names);
        proof {
            assert(r.deep_view() =~= self@.matcher_word + self@.name);
        }
        r
    }

    /// A copy of the extracted key-to-value-set map.
    pub fn extract_result(&self) -> (r: Vec<(String, Vec<String>)>)
        ensures
            extract_view(r@) == self@.extract,
    {
        let mut r: Vec<(String, Vec<String>)> = Vec::new();
        let mut i: usize = 0;
        while i < self.extract_result.len()
            invariant
                i <= self.extract_result.len(),
                r@.len() == i,
                forall|k: int| 0 <= k < i ==> (#[trigger] r@[k].0@ == self.extract_result@[k].0@
                    && r@[k].1.deep_view() == self.extract_result@[k].1.deep_view()),
            decreases self.extract_result.len() - i,
        {
            let entry = (self.extract_result[i].0.clone(), clone_string_vec(
                &self.extract_result[i].1,
            ));
            proof {
                assert(entry.1.deep_view() =~= self.extract_result@[i as int].1.deep_view());
            }
            r.push(entry);
            i += 1;
        }
        proof {
            assert(extract_view(r@) =~= extract_view(self.extract_result@));
        }
        r
    }
}

/// One matcher's contribution once it holds: its name joins the name set,
/// its words are appended.
pub open spec fn add_contribution(r: ResView, m: Matcher, words: Seq<Seq<char>>) -> ResView {
    ResView {
        name: match m.name {
            Option::Some(n) => dedup_insert(r.name, n@),
            Option::None => r.name,
        },
        matcher_word: r.matcher_word + words,
        ..r
    }
}

/// The outcome of a matcher pass: whether it completed, and the accumulator
/// it left behind.
#[verifier::ext_equal]
pub struct MatcherRun {
    pub ok: bool,
    pub res: ResView,
}

/// The matcher pass from matcher `i` on, over accumulator `r`: part
/// resolution failure or a favicon hard error aborts with the accumulator
/// as it stands; otherwise OR records every hit (stopping early only under
/// stop-at-first-match) and AND stops at the first miss, turning matched on
/// only when the end is reached.
pub open spec fn spec_matcher_run(
    op: Operators,
    t: OperatorTarget,
    meta: Option<ResponseMeta>,
    i: int,
    r: ResView,
) -> MatcherRun
    decreases op.matchers@.len() - i,
{
    if i < 0 || i >= op.matchers@.len() {
        MatcherRun {
            ok: true,
            res: if op.matchers_condition is And {
                ResView { matched: true, ..r }
            } else {
                r
            },
        }
    } else {
        let m = op.matchers@[i];
        if !part_ok(t, m.part) || favicon_abort(m, meta) {
            MatcherRun { ok: false, res: r }
        } else {
            let pw = part_words(t, m.part);
            let pt = part_text_or_empty(t, m.part);
            if !eval_match(m, pw, pt, meta) {
                if op.matchers_condition is Or {
                    spec_matcher_run(op, t, meta, i + 1, r)
                } else {
                    MatcherRun { ok: true, res: ResView { matched: false, ..r } }
                }
            } else {
                let r2 = add_contribution(r, m, match_words(m, pw, pt, meta));
                if op.matchers_condition is Or {
                    let r3 = ResView { matched: true, ..r2 };
                    if op.stop_at_first_match {
                        MatcherRun { ok: true, res: r3 }
                    } else {
                        spec_matcher_run(op, t, meta, i + 1, r3)
                    }
                } else {
                    spec_matcher_run(op, t, meta, i + 1, r2)
                }
            }
        }
    }
}

/// The whole matcher pass; an empty matcher set contributes nothing.
pub open spec fn spec_matcher_top(
    op: Operators,
    t: OperatorTarget,
    meta: Option<ResponseMeta>,
    r: ResView,
) -> MatcherRun {
    if op.matchers@.len() == 0 {
        MatcherRun { ok: true, res: r }
    } else {
        spec_matcher_run(op, t, meta, 0, r)
    }
}

/// First index of `key` in an extract map; the length when absent.
pub open spec fn key_idx(ex: Seq<(Seq<char>, Seq<Seq<char>>)>, key: Seq<char>) -> nat
    decreases ex.len(),
{
    if ex.len() == 0 {
        0
    } else if ex[0].0 == key {
        0
    } else {
        1 + key_idx(ex.skip(1), key)
    }
}

proof fn lemma_key_idx_at(ex: Seq<(Seq<char>, Seq<Seq<char>>)>, key: Seq<char>, i: int)
    requires
        0 <= i <= ex.len(),
        forall|k: int| 0 <= k < i ==> ex[k].0 != key,
        i < ex.len() ==> ex[i].0 == key,
    ensures
        key_idx(ex, key) == if i < ex.len() {
            i as nat
        } else {
            ex.len()
        },
    decreases ex.len(),
{
    if ex.len() == 0 {
    } else if i == 0 {
        if ex[0].0 != key {
            lemma_key_idx_at(ex.skip(1), key, i);
            assert forall|k: int| 0 <= k < ex.skip(1).len() implies ex.skip(1)[k].0 != key by {
                assert(ex.skip(1)[k] == ex[k + 1]);
            }
        }
    } else {
        lemma_key_idx_at(ex.skip(1), key, i - 1);
    }
}

/// Union `vals` into the set stored under `key`, creating the entry when it
/// is new.
pub open spec fn merge_extract(
    ex: Seq<(Seq<char>, Seq<Seq<char>>)>,
    key: Seq<char>,
    vals: Seq<Seq<char>>,
) -> Seq<(Seq<char>, Seq<Seq<char>>)> {
    let i = key_idx(ex, key);
    if i < ex.len() {
        ex.update(i as int, (key, dedup_all(ex[i as int].1, vals)))
    } else {
        ex.push((key, dedup_all(Seq::empty(), vals)))
    }
}

/// Replace the set stored under `key` by the singleton `{v}`, creating the
/// entry when it is new.
pub open spec fn set_extract(
    ex: Seq<(Seq<char>, Seq<Seq<char>>)>,
    key: Seq<char>,
    v: Seq<char>,
) -> Seq<(Seq<char>, Seq<Seq<char>>)> {
    let i = key_idx(ex, key);
    if i < ex.len() {
        ex.update(i as int, (key, seq![v]))
    } else {
        ex.push((key, seq![v]))
    }
}

/// Version entries land as singleton sets under their own keys, in order.
pub open spec fn apply_versions(
    ex: Seq<(Seq<char>, Seq<Seq<char>>)>,
    vents: Seq<(Seq<char>, Seq<char>)>,
) -> Seq<(Seq<char>, Seq<Seq<char>>)>
    decreases vents.len(),
{
    if vents.len() == 0 {
        ex
    } else {
        apply_versions(set_extract(ex, vents[0].0, vents[0].1), vents.skip(1))
    }
}

/// The key one extractor reports under: its name, or its position in
/// decimal.
pub open spec fn extract_key(e: Extractor, idx: int) -> Seq<char> {
    match e.name {
        Option::Some(n) => n@,
        Option::None => dec_digits(idx as nat),
    }
}

/// One extractor's effect on the extract map: nothing when its part cannot
/// be resolved or it produced no values; otherwise its values are unioned
/// under its key and its version entries applied.
pub open spec fn spec_extract_step(
    e: Extractor,
    idx: int,
    t: OperatorTarget,
    version: Option<Seq<(Seq<char>, Seq<char>)>>,
    ex: Seq<(Seq<char>, Seq<Seq<char>>)>,
) -> Seq<(Seq<char>, Seq<Seq<char>>)> {
    if !part_ok(t, e.part) {
        ex
    } else {
        let text = part_text_or_empty(t, e.part);
        let vals = extract_values(e, text);
        let ex1 = if vals.len() > 0 {
            merge_extract(ex, extract_key(e, idx), vals)
        } else {
            ex
        };
        apply_versions(ex1, version_entries(e, text, version))
    }
}

/// The extractor pass from extractor `i` on: each extractor is independent;
/// a retrieval failure skips only that extractor.
pub open spec fn spec_extract_run(
    op: Operators,
    t: OperatorTarget,
    version: Option<Seq<(Seq<char>, Seq<char>)>>,
    i: int,
    ex: Seq<(Seq<char>, Seq<Seq<char>>)>,
) -> Seq<(Seq<char>, Seq<Seq<char>>)>
    decreases op.extractors@.len() - i,
{
    if i < 0 || i >= op.extractors@.len() {
        ex
    } else {
        spec_extract_run(
            op,
            t,
            version,
            i + 1,
            spec_extract_step(op.extractors@[i], i, t, version, ex),
        )
    }
}

/// The whole extractor pass over an accumulator: only the extract map moves.
pub open spec fn spec_extract_top(
    op: Operators,
    t: OperatorTarget,
    version: Option<Seq<(Seq<char>, Seq<char>)>>,
    r: ResView,
) -> ResView {
    ResView { extract: spec_extract_run(op, t, version, 0, r.extract), ..r }
}

fn merge_into(ex: &mut Vec<(String, Vec<String>)>, key: String, vals: Vec<String>)
    ensures
        extract_view(final(ex)@) == merge_extract(extract_view(old(ex)@), key@, vals.deep_view()),
{
    let ghost exv = extract_view(ex@);
    let mut j: usize = 0;
    while j < ex.len()
        invariant
            j <= ex.len(),
            exv == extract_view(ex@),
            exv == extract_view(old(ex)@),
            forall|k: int| 0 <= k < j ==> exv[k].0 != key@,
        decreases ex.len() - j,
    {
        if ex[j].0 == key {
            proof {
                assert(exv[j as int].0 == key@);
                lemma_key_idx_at(exv, key@, j as int);
            }
            let mut entry = ex.remove(j);
            extend_unique(&mut entry.1, vals);
            ex.insert(j, entry);
            proof {
                assert(extract_view(ex@) =~= exv.update(
                    j as int,
                    (key@, dedup_all(exv[j as int].1, vals.deep_view())),
                ));
            }
            return ;
        }
        j += 1;
    }
    proof {
        lemma_key_idx_at(exv, key@, exv.len() as int);
    }
    let mut nv: Vec<String> = Vec::new();
    proof {
        assert(nv.deep_view() =~= Seq::<Seq<char>>::empty());
    }
    extend_unique(&mut nv, vals);
    ex.push((key, nv));
    proof {
        assert(extract_view(ex@) =~= exv.push(
            (key@, dedup_all(Seq::empty(), vals.deep_view())),
        ));
    }
}

fn set_into(ex: &mut Vec<(String, Vec<String>)>, key: String, v: String)
    ensures
        extract_view(final(ex)@) == set_extract(extract_view(old(ex)@), key@, v@),
{
    let ghost exv = extract_view(ex@);
    let ghost vv = v@;
    let mut nv: Vec<String> = Vec::new();
    nv.push(v);
    proof {
        assert(nv.deep_view() =~= seq![vv]);
    }
    let mut j: usize = 0;
    while j < ex.len()
        invariant
            j <= ex.len(),
            exv == extract_view(ex@),
            exv == extract_view(old(ex)@),
            vv == v@,
            nv.deep_view() == seq![vv],
            forall|k: int| 0 <= k < j ==> exv[k].0 != key@,
        decreases ex.len() - j,
    {
        if ex[j].0 == key {
            proof {
                assert(exv[j as int].0 == key@);
                lemma_key_idx_at(exv, key@, j as int);
            }
            let entry = (key, nv);
            let _old = ex.remove(j);
            ex.insert(j, entry);
            proof {
                assert(extract_view(ex@) =~= exv.update(j as int, (key@, seq![vv])));
            }
            return ;
        }
        j += 1;
    }
    proof {
        lemma_key_idx_at(exv, key@, exv.len() as int);
    }
    ex.push((key, nv));
    proof {
        assert(extract_view(ex@) =~= exv.push((key@, seq![vv])));
    }
}

impl Operators {
    /// Resolves every pattern at template-load time. A failure means the
    /// template must not be admitted to a cluster.
    pub fn compile(&mut self) -> (r: Result<(), Error>)
        ensures
            *final(self) == *old(self),
            r is Ok <==> spec_compiled(*old(self)),
            r matches Err(e) ==> e == Error::RegexCompile,
    {
        let mut i: usize = 0;
        while i < self.matchers.len()
            invariant
                i <= self.matchers@.len(),
                forall|k: int| 0 <= k < i ==> matcher_compiled(#[trigger] self.matchers@[k]),
            decreases self.matchers@.len() - i,
        {
            match self.matchers[i].compile() {
                Result::Ok(()) => {},
                Result::Err(e) => {
                    return Result::Err(e);
                },
            }
            i += 1;
        }
        let mut j: usize = 0;
        while j < self.extractors.len()
            invariant
                j <= self.extractors@.len(),
                forall|k: int| 0 <= k < self.matchers@.len() ==> matcher_compiled(
                    #[trigger] self.matchers@[k],
                ),
                forall|k: int| 0 <= k < j ==> extractor_compiled(#[trigger] self.extractors@[k]),
            decreases self.extractors@.len() - j,
        {
            match self.extractors[j].compile() {
                Result::Ok(()) => {},
                Result::Err(e) => {
                    return Result::Err(e);
                },
            }
            j += 1;
        }
        Result::Ok(())
    }

    /// The matcher pass over any target, with response metadata when the
    /// caller holds a response. The pass and its outcome are exactly
    /// `spec_matcher_top`.
    pub fn matcher_generic(
        &self,
        target: &OperatorTarget,
        meta: Option<&ResponseMeta>,
        result: &mut OperatorResult,
    ) -> (r: Result<(), Error>)
        ensures
            ({
                let run = spec_matcher_top(*self, *target, meta_view(meta), old(result)@);
                final(result)@ == run.res && (r is Ok <==> run.ok)
            }),
            r matches Err(e) ==> e == Error::PartUnavailable || e == Error::FaviconMapMissing,
    {
        if self.matchers.len() == 0 {
            return Result::Ok(());
        }
        let ghost mv = meta_view(meta);
        let ghost init = result@;
        let mut i: usize = 0;
        while i < self.matchers.len()
            invariant
                i <= self.matchers@.len(),
                self.matchers@.len() > 0,
                meta_view(meta) == mv,
                init == old(result)@,
                spec_matcher_run(*self, *target, mv, 0, init) == spec_matcher_run(
                    *self,
                    *target,
                    mv,
                    i as int,
                    result@,
                ),
            decreases self.matchers@.len() - i,
        {
            let ghost pre = result@;
            let m = &self.matchers[i];
            let wb = match m.part.get_matcher_word_from_part(target) {
                Result::Ok(x) => x,
                Result::Err(e) => {
                    proof {
                        let mm = self.matchers@[i as int];
                        assert(!part_ok(*target, mm.part));
                        assert(spec_matcher_run(*self, *target, mv, i as int, result@)
                            == (MatcherRun { ok: false, res: result@ }));
                    }
                    return Result::Err(e);
                },
            };
            let (words, text) = wb;
            let bw = match m.evaluate(&words, &text, meta) {
                Result::Ok(x) => x,
                Result::Err(e) => {
                    proof {
                        let mm = self.matchers@[i as int];
                        assert(favicon_abort(mm, mv));
                        assert(part_ok(*target, mm.part));
                        assert(spec_matcher_run(*self, *target, mv, i as int, result@)
                            == (MatcherRun { ok: false, res: result@ }));
                    }
                    return Result::Err(e);
                },
            };
            let (rawb, mut mw) = bw;
            let is_match = m.negative(rawb);
            proof {
                assert(eval_match(
                    *m,
                    part_words(*target, m.part),
                    part_text_or_empty(*target, m.part),
                    mv,
                ) == is_match);
            }
            if !is_match {
                match self.matchers_condition {
                    Condition::Or => {},
                    Condition::And => {
                        result.matched = false;
                        proof {
                            assert(result@ =~= (ResView { matched: false, ..pre }));
                        }
                        return Result::Ok(());
                    },
                }
            } else {
                match &m.name {
                    Option::Some(n) => {
                        insert_unique(&mut result.name, n.clone());
                    },
                    Option::None => {},
                }
                result.matcher_word.append(&mut mw);
                let ghost contributed = add_contribution(
                    pre,
                    *m,
                    match_words(
                        *m,
                        part_words(*target, m.part),
                        part_text_or_empty(*target, m.part),
                        mv,
                    ),
                );
                proof {
                    assert(result@ =~= contributed);
                }
                match self.matchers_condition {
                    Condition::Or => {
                        result.matched = true;
                        proof {
                            assert(result@ =~= (ResView { matched: true, ..contributed }));
                        }
                        if self.stop_at_first_match {
                            return Result::Ok(());
                        }
                    },
                    Condition::And => {},
                }
            }
            i += 1;
        }
        match self.matchers_condition {
            Condition::And => {
                let ghost pre = result@;
                result.matched = true;
                proof {
                    assert(result@ =~= (ResView { matched: true, ..pre }));
                }
            },
            Condition::Or => {},
        }
        Result::Ok(())
    }

    /// The matcher pass against a response; its own metadata serves the
    /// status and favicon kinds.
    pub fn matcher(&self, response: &ResponseTarget, result: &mut OperatorResult) -> (r: Result<
        (),
        Error,
    >)
        ensures
            ({
                let run = spec_matcher_top(
                    *self,
                    response.target,
                    Option::Some(response.meta),
                    old(result)@,
                );
                final(result)@ == run.res && (r is Ok <==> run.ok)
            }),
            r matches Err(e) ==> e == Error::PartUnavailable || e == Error::FaviconMapMissing,
    {
        self.matcher_generic(&response.target, Option::Some(&response.meta), result)
    }

    /// The extractor pass over any target: every extractor runs, each
    /// independent of the failures of the others.
    pub fn extractor_generic(
        &self,
        version: Option<Version>,
        target: &OperatorTarget,
        result: &mut OperatorResult,
    )
        ensures
            final(result)@ == spec_extract_top(
                *self,
                *target,
                version_view(version),
                old(result)@,
            ),
    {
        let ghost vv = version_view(version);
        let ghost init = result@;
        let mut i: usize = 0;
        while i < self.extractors.len()
            invariant
                i <= self.extractors@.len(),
                version_view(version) == vv,
                result@.matched == init.matched,
                result@.name == init.name,
                result@.matcher_word == init.matcher_word,
                spec_extract_run(*self, *target, vv, 0, init.extract) == spec_extract_run(
                    *self,
                    *target,
                    vv,
                    i as int,
                    result@.extract,
                ),
            decreases self.extractors@.len() - i,
        {
            let ghost pre = result@.extract;
            let e = &self.extractors[i];
            match e.part.get_matcher_word_from_part(target) {
                Result::Err(_) => {},
                Result::Ok(wb) => {
                    let (_words, text) = wb;
                    let (vals, vents) = e.evaluate(&text, &version);
                    let ghost text_v = part_text_or_empty(*target, e.part);
                    let ghost merged = if extract_values(*e, text_v).len() > 0 {
                        merge_extract(pre, extract_key(*e, i as int), vals.deep_view())
                    } else {
                        pre
                    };
                    if vals.len() > 0 {
                        let key = match &e.name {
                            Option::Some(n) => n.clone(),
                            Option::None => u64_to_dec(i as u64),
                        };
                        merge_into(&mut result.extract_result, key, vals);
                    }
                    proof {
                        assert(result@.extract == merged);
                    }
                    let ghost vents_v = version_entries(*e, text_v, vv);
                    let mut j: usize = 0;
                    proof {
                        assert(vents_v.skip(0) =~= vents_v);
                    }
                    while j < vents.len()
                        invariant
                            j <= vents@.len(),
                            vents_v == crate::info::pairs_view(vents@),
                            result@.matched == init.matched,
                            result@.name == init.name,
                            result@.matcher_word == init.matcher_word,
                            apply_versions(merged, vents_v) == apply_versions(
                                result@.extract,
                                vents_v.skip(j as int),
                            ),
                        decreases vents@.len() - j,
                    {
                        let ghost rest = vents_v.skip(j as int);
                        let key = vents[j].0.clone();
                        let v = vents[j].1.clone();
                        set_into(&mut result.extract_result, key, v);
                        proof {
                            assert(rest[0] == vents_v[j as int]);
                            assert(rest.skip(1) =~= vents_v.skip(j + 1));
                        }
                        j += 1;
                    }
                    proof {
                        assert(vents_v.skip(j as int) =~= Seq::<(Seq<char>, Seq<char>)>::empty());
                        assert(result@.extract == spec_extract_step(*e, i as int, *target, vv, pre));
                    }
                },
            }
            i += 1;
        }
        proof {
            assert(final(result)@ =~= spec_extract_top(*self, *target, vv, init));
        }
    }

    /// The extractor pass against a response.
    pub fn extractor(
        &self,
        version: Option<Version>,
        response: &ResponseTarget,
        result: &mut OperatorResult,
    )
        ensures
            final(result)@ == spec_extract_top(
                *self,
                response.target,
                version_view(version),
                old(result)@,
            ),
    {
        self.extractor_generic(version, &response.target, result)
    }
}

/// A matcher whose pattern (if any) compiles.
pub open spec fn matcher_compiled(m: Matcher) -> bool {
    match m.kind {
        crate::matchers::MatcherKind::Regex { pattern } => crate::patterns::regex_ok(pattern@),
        _ => true,
    }
}

/// An extractor whose pattern (if any) compiles.
pub open spec fn extractor_compiled(e: Extractor) -> bool {
    match e.kind {
        crate::extractors::ExtractorKind::Regex { pattern } => crate::patterns::regex_ok(pattern@),
        _ => true,
    }
}

/// Every pattern of an operator set compiles.
pub open spec fn spec_compiled(op: Operators) -> bool {
    &&& forall|k: int| 0 <= k < op.matchers@.len() ==> matcher_compiled(#[trigger] op.matchers@[k])
    &&& forall|k: int| 0 <= k < op.extractors@.len() ==> extractor_compiled(
        #[trigger] op.extractors@[k],
    )
}

} // verus!
