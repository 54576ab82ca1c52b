//! One matcher: a boolean test over a chosen content part. Word matching is
//! substring containment of a configured word in some token of the part
//! (case-sensitive); regex matching runs the pattern over the part's raw
//! text; status and favicon matching read response metadata; the reserved
//! kinds are inert and never match.
use vstd::prelude::*;

use crate::Error;
use crate::patterns::regex_findings;
use crate::patterns::regex_find_all;
use crate::patterns::regex_ok;
use crate::patterns::regex_valid;
use crate::strings::contains_seq;
use crate::strings::contains_str;
use crate::strings::dec_digits;
use crate::strings::u64_to_dec;
use crate::target::FaviconMap;
use crate::target::Part;
use crate::target::ResponseMeta;

verus! {

/// The condition combining the matchers of one operator block.
#[derive(Clone, Copy, Debug, PartialEq, Eq, Structural)]
pub enum Condition {
    Or,
    And,
}

impl Default for Condition {
    /// Matchers combine under OR unless told otherwise.
    fn default() -> (r: Self)
        ensures
            r == Condition::Or,
    {
        Condition::Or
    }
}

/// The discriminated matcher kinds. `Empty`, `Dsl`, `Binary` and `Xpath` are
/// reserved for future extension: they stay representable and always
/// evaluate to a non-match.
pub enum MatcherKind {
    Word { words: Vec<String> },
    Regex { pattern: String },
    Status { status: Vec<u16> },
    Favicon { hash: Vec<String> },
    Empty,
    Dsl,
    Binary,
    Xpath,
}

/// One boolean test over a chosen content part.
pub struct Matcher {
    pub kind: MatcherKind,
    pub part: Part,
    pub name: Option<String>,
    pub negative: bool,
}

/// A configured word matches when it occurs inside some token of the part.
pub open spec fn word_hit(w: Seq<char>, words: Seq<Seq<char>>) -> bool {
    exists|i: int| 0 <= i < words.len() && contains_seq(words[i], w)
}

/// The configured words that match, in configuration order.
pub open spec fn word_hits(config: Seq<Seq<char>>, words: Seq<Seq<char>>) -> Seq<Seq<char>>
    decreases config.len(),
{
    if config.len() == 0 {
        Seq::empty()
    } else {
        (if word_hit(config[0], words) {
            seq![config[0]]
        } else {
            Seq::empty()
        }) + word_hits(config.skip(1), words)
    }
}

/// A configured favicon hash matches when it equals one of the digests of
/// some entry of the precomputed hash map.
pub open spec fn favicon_hit(h: Seq<char>, entries: Seq<FaviconMap>) -> bool {
    exists|i: int| 0 <= i < entries.len() && (entries[i].md5@ == h || entries[i].mmh3@ == h)
}

/// The configured hashes that match, in configuration order.
pub open spec fn favicon_hits(config: Seq<Seq<char>>, entries: Seq<FaviconMap>) -> Seq<Seq<char>>
    decreases config.len(),
{
    if config.len() == 0 {
        Seq::empty()
    } else {
        (if favicon_hit(config[0], entries) {
            seq![config[0]]
        } else {
            Seq::empty()
        }) + favicon_hits(config.skip(1), entries)
    }
}

/// A favicon matcher with response metadata but no hash map is a hard
/// error: the content model of this target is inconsistent.
pub open spec fn favicon_abort(m: Matcher, meta: Option<ResponseMeta>) -> bool {
    &&& m.kind is Favicon
    &&& meta matches Some(md) && md.favicon is None
}

/// The raw boolean of one matcher, before negation, given the resolved part
/// `(words, text)` and the response metadata.
pub open spec fn raw_match(
    m: Matcher,
    words: Seq<Seq<char>>,
    text: Seq<char>,
    meta: Option<ResponseMeta>,
) -> bool {
    match m.kind {
        MatcherKind::Word { words: config } => word_hits(config.deep_view(), words).len() > 0,
        MatcherKind::Regex { pattern } => regex_ok(pattern@) && regex_findings(
            pattern@,
            text,
        ).len() > 0,
        MatcherKind::Status { status } => meta matches Some(md) && status@.contains(
            md.status_code,
        ),
        MatcherKind::Favicon { hash } => meta matches Some(md) && md.favicon matches Some(fm)
            && favicon_hits(hash.deep_view(), fm@).len() > 0,
        _ => false,
    }
}

/// The words one matcher reports, before negation: the matching configured
/// words (word and favicon kinds), every pattern match (regex kind), or the
/// decimal status code when metadata is present (status kind).
pub open spec fn match_words(
    m: Matcher,
    words: Seq<Seq<char>>,
    text: Seq<char>,
    meta: Option<ResponseMeta>,
) -> Seq<Seq<char>> {
    match m.kind {
        MatcherKind::Word { words: config } => word_hits(config.deep_view(), words),
        MatcherKind::Regex { pattern } => if regex_ok(pattern@) {
            regex_findings(pattern@, text)
        } else {
            Seq::empty()
        },
        MatcherKind::Status { status } => match meta {
            Option::Some(md) => seq![dec_digits(md.status_code as nat)],
            Option::None => Seq::empty(),
        },
        MatcherKind::Favicon { hash } => match meta {
            Option::Some(md) => match md.favicon {
                Option::Some(fm) => favicon_hits(hash.deep_view(), fm@),
                Option::None => Seq::empty(),
            },
            Option::None => Seq::empty(),
        },
        _ => Seq::empty(),
    }
}

/// The boolean one matcher contributes to condition bookkeeping: the raw
/// boolean, inverted when the matcher is negative.
pub open spec fn eval_match(
    m: Matcher,
    words: Seq<Seq<char>>,
    text: Seq<char>,
    meta: Option<ResponseMeta>,
) -> bool {
    if m.negative {
        !raw_match(m, words, text, meta)
    } else {
        raw_match(m, words, text, meta)
    }
}

/// Dereference an optional metadata borrow for use in contracts.
pub open spec fn meta_view(meta: Option<&ResponseMeta>) -> Option<ResponseMeta> {
    match meta {
        Option::Some(md) => Option::Some(*md),
        Option::None => Option::None,
    }
}

fn match_word_list(config: &Vec<String>, words: &Vec<String>) -> (r: Vec<String>)
    ensures
        r.deep_view() == word_hits(config.deep_view(), words.deep_view()),
{
    let mut r: Vec<String> = Vec::new();
    let mut i: usize = 0;
    proof {
        assert(config.deep_view().skip(0) =~= config.deep_view());
        assert(r.deep_view() + word_hits(config.deep_view(), words.deep_view())
            =~= word_hits(config.deep_view(), words.deep_view()));
    }
    while i < config.len()
        invariant
            i <= config.len(),
            word_hits(config.deep_view(), words.deep_view()) =~= r.deep_view() + word_hits(
                config.deep_view().skip(i as int),
                words.deep_view(),
            ),
        decreases config.len() - i,
    {
        let ghost rest = config.deep_view().skip(i as int);
        let w = &config[i];
        let mut hit = false;
        let mut j: usize = 0;
        while j < words.len()
            invariant
                j <= words.len(),
                hit ==> word_hit(w@, words.deep_view()),
                !hit ==> forall|k: int| 0 <= k < j ==> !contains_seq(
                    words.deep_view()[k],
                    w@,
                ),
                hit ==> j == words.len(),
            decreases words.len() - j,
        {
            if contains_str(words[j].as_str(), w.as_str()) {
                proof {
                    assert(contains_seq(words.deep_view()[j as int], w@));
                }
                hit = true;
                j = words.len();
            } else {
                j += 1;
            }
        }
        let ghost pre = r.deep_view();
        if hit {
            r.push(w.clone());
            proof {
                assert(r.deep_view() =~= pre.push(w@));
            }
        } else {
            proof {
                assert(!word_hit(w@, words.deep_view()));
            }
        }
        proof {
            assert(rest[0] == config.deep_view()[i as int]);
            assert(rest.skip(1) =~= config.deep_view().skip(i + 1));
            assert(word_hits(config.deep_view(), words.deep_view()) =~= r.deep_view()
                + word_hits(config.deep_view().skip(i + 1), words.deep_view()));
        }
        i += 1;
    }
    proof {
        assert(config.deep_view().skip(i as int) =~= Seq::<Seq<char>>::empty());
        assert(word_hits(config.deep_view(), words.deep_view()) =~= r.deep_view());
    }
    r
}

fn match_favicon_list(config: &Vec<String>, entries: &Vec<FaviconMap>) -> (r: Vec<String>)
    ensures
        r.deep_view() == favicon_hits(config.deep_view(), entries@),
{
    let mut r: Vec<String> = Vec::new();
    let mut i: usize = 0;
    proof {
        assert(config.deep_view().skip(0) =~= config.deep_view());
        assert(r.deep_view() + favicon_hits(config.deep_view(), entries@) =~= favicon_hits(
            config.deep_view(),
            entries@,
        ));
    }
    while i < config.len()
        invariant
            i <= config.len(),
            favicon_hits(config.deep_view(), entries@) =~= r.deep_view() + favicon_hits(
                config.deep_view().skip(i as int),
                entries@,
            ),
        decreases config.len() - i,
    {
        let ghost rest = config.deep_view().skip(i as int);
        let h = &config[i];
        let mut hit = false;
        let mut j: usize = 0;
        while j < entries.len()
            invariant
                j <= entries.len(),
                hit ==> favicon_hit(h@, entries@),
                !hit ==> forall|k: int| 0 <= k < j ==> !(entries@[k].md5@ == h@
                    || entries@[k].mmh3@ == h@),
                hit ==> j == entries.len(),
            decreases entries.len() - j,
        {
            if entries[j].md5 == *h || entries[j].mmh3 == *h {
                hit = true;
                j = entries.len();
            } else {
                j += 1;
            }
        }
        let ghost pre = r.deep_view();
        if hit {
            r.push(h.clone());
            proof {
                assert(r.deep_view() =~= pre.push(h@));
            }
        } else {
            proof {
                assert(!favicon_hit(h@, entries@));
            }
        }
        proof {
            assert(rest[0] == config.deep_view()[i as int]);
            assert(rest.skip(1) =~= config.deep_view().skip(i + 1));
            assert(favicon_hits(config.deep_view(), entries@) =~= r.deep_view() + favicon_hits(
                config.deep_view().skip(i + 1),
                entries@,
            ));
        }
        i += 1;
    }
    proof {
        assert(config.deep_view().skip(i as int) =~= Seq::<Seq<char>>::empty());
        assert(favicon_hits(config.deep_view(), entries@) =~= r.deep_view());
    }
    r
}

impl Matcher {
    /// Applies the negate flag to a raw boolean.
    pub fn negative(&self, b: bool) -> (r: bool)
        ensures
            r == if self.negative {
                !b
            } else {
                b
            },
    {
        if self.negative {
            !b
        } else {
            b
        }
    }

    /// Resolves any pattern at template-load time: an invalid regular
    /// expression is a hard error and the template must not be admitted.
    pub fn compile(&self) -> (r: Result<(), Error>)
        ensures
            r is Ok <==> match self.kind {
                MatcherKind::Regex { pattern } => regex_ok(pattern@),
                _ => true,
            },
            r matches Err(e) ==> e == Error::RegexCompile,
    {
        match &self.kind {
            MatcherKind::Regex { pattern } => {
                if regex_valid(pattern.as_str()) {
                    Result::Ok(())
                } else {
                    Result::Err(Error::RegexCompile)
                }
            },
            _ => Result::Ok(()),
        }
    }

    /// Evaluates this matcher's kind over a resolved part. Returns the raw
    /// boolean (negation not yet applied) and the reported words, or the
    /// favicon hard error.
    pub fn evaluate(
        &self,
        words: &Vec<String>,
        text: &String,
        meta: Option<&ResponseMeta>,
    ) -> (r: Result<(bool, Vec<String>), Error>)
        ensures
            r is Ok <==> !favicon_abort(*self, meta_view(meta)),
            r matches Ok(bw) ==> bw.0 == raw_match(*self, words.deep_view(), text@, meta_view(meta))
                && bw.1.deep_view() == match_words(*self, words.deep_view(), text@, meta_view(meta)),
            r matches Err(e) ==> e == Error::FaviconMapMissing,
    {
        match &self.kind {
            MatcherKind::Word { words: config } => {
                let hits = match_word_list(config, words);
                let b = hits.len() > 0;
                Result::Ok((b, hits))
            },
            MatcherKind::Regex { pattern } => {
                let found = regex_find_all(pattern.as_str(), text.as_str());
                let b = found.len() > 0;
                proof {
                    if !regex_ok(pattern@) {
                        assert(found.deep_view() =~= Seq::<Seq<char>>::empty());
                    }
                }
                Result::Ok((b, found))
            },
            MatcherKind::Status { status } => {
                match meta {
                    Option::Some(md) => {
                        let mut b = false;
                        let mut j: usize = 0;
                        while j < status.len()
                            invariant
                                j <= status.len(),
                                b ==> status@.contains(md.status_code),
                                !b ==> forall|k: int| 0 <= k < j ==> status@[k]
                                    != md.status_code,
                                b ==> j == status.len(),
                            decreases status.len() - j,
                        {
                            if status[j] == md.status_code {
                                b = true;
                                j = status.len();
                            } else {
                                j += 1;
                            }
                        }
                        let mut w: Vec<String> = Vec::new();
                        w.push(u64_to_dec(md.status_code as u64));
                        proof {
                            if !b {
                                assert(!status@.contains(md.status_code));
                            }
                            assert(w.deep_view() =~= seq![dec_digits(md.status_code as nat)]);
                        }
                        Result::Ok((b, w))
                    },
                    Option::None => Result::Ok((false, Vec::new())),
                }
            },
            MatcherKind::Favicon { hash } => {
                match meta {
                    Option::Some(md) => match &md.favicon {
                        Option::Some(entries) => {
                            let hits = match_favicon_list(hash, entries);
                            let b = hits.len() > 0;
                            Result::Ok((b, hits))
                        },
                        Option::None => Result::Err(Error::FaviconMapMissing),
                    },
                    Option::None => Result::Ok((false, Vec::new())),
                }
            },
            _ => Result::Ok((false, Vec::new())),
        }
    }
}

} // verus!
