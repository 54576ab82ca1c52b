//! One extractor: a data-extraction rule over a chosen content part. Regex
//! extraction reports, per match, the first capture group (or the whole
//! match), deduplicated; JSON extraction reports the string values a
//! JSON-path query selects from the part text; the reserved kinds are inert.
//! A regex extractor evaluated with an expected-version hint additionally
//! yields one version entry per hint field, its template expanded against
//! the capture groups of the part text.
use vstd::prelude::*;

use crate::Error;
use crate::info::Version;
use crate::info::pairs_view;
use crate::patterns::json_select;
use crate::patterns::json_selected;
use crate::patterns::regex_capture_all;
use crate::patterns::regex_captured;
use crate::patterns::regex_ok;
use crate::patterns::regex_valid;
use crate::strings::dedup_all;
use crate::strings::extend_unique;
use crate::strings::subst;
use crate::strings::substitute;
use crate::target::Part;

verus! {

/// The discriminated extractor kinds. `Kval`, `Xpath` and `Dsl` are reserved
/// for future extension: they stay representable and extract nothing.
pub enum ExtractorKind {
    Regex { pattern: String },
    Json { path: String },
    Kval,
    Xpath,
    Dsl,
}

/// One data-extraction rule over a chosen content part. The optional name is
/// the key extracted values are reported under; an unnamed extractor falls
/// back to its position, in decimal.
pub struct Extractor {
    pub kind: ExtractorKind,
    pub part: Part,
    pub name: Option<String>,
}

/// The deduplicated values one extractor produces from a part text.
pub open spec fn extract_values(e: Extractor, text: Seq<char>) -> Seq<Seq<char>> {
    match e.kind {
        ExtractorKind::Regex { pattern } => if regex_ok(pattern@) {
            dedup_all(Seq::empty(), regex_captured(pattern@, text))
        } else {
            Seq::empty()
        },
        ExtractorKind::Json { path } => dedup_all(Seq::empty(), json_selected(path@, text)),
        _ => Seq::empty(),
    }
}

/// The version entries one extractor produces: for a regex extractor whose
/// pattern matched at least once, each hint field expanded against the
/// capture groups; empty otherwise.
pub open spec fn version_entries(
    e: Extractor,
    text: Seq<char>,
    version: Option<Seq<(Seq<char>, Seq<char>)>>,
) -> Seq<(Seq<char>, Seq<char>)> {
    match e.kind {
        ExtractorKind::Regex { pattern } => if regex_ok(pattern@) && regex_captured(
            pattern@,
            text,
        ).len() > 0 {
            match version {
                Option::Some(fs) => Seq::new(
                    fs.len(),
                    |i: int| (fs[i].0, subst(fs[i].1, regex_captured(pattern@, text))),
                ),
                Option::None => Seq::empty(),
            }
        } else {
            Seq::empty()
        },
        _ => Seq::empty(),
    }
}

impl Extractor {
    /// Resolves any pattern at template-load time: an invalid regular
    /// expression is a hard error and the template must not be admitted.
    pub fn compile(&self) -> (r: Result<(), Error>)
        ensures
            r is Ok <==> match self.kind {
                ExtractorKind::Regex { pattern } => regex_ok(pattern@),
                _ => true,
            },
            r matches Err(e) ==> e == Error::RegexCompile,
    {
        match &self.kind {
            ExtractorKind::Regex { pattern } => {
                if regex_valid(pattern.as_str()) {
                    Result::Ok(())
                } else {
                    Result::Err(Error::RegexCompile)
                }
            },
            _ => Result::Ok(()),
        }
    }

    /// Evaluates this extractor's kind over a resolved part text: the
    /// deduplicated extracted values and the version entries.
    pub fn evaluate(&self, text: &String, version: &Option<Version>) -> (r: (
        Vec<String>,
        Vec<(String, String)>,
    ))
        ensures
            r.0.deep_view() == extract_values(*self, text@),
            pairs_view(r.1@) == version_entries(
                *self,
                text@,
                crate::info::version_view(*version),
            ),
    {
        match &self.kind {
            ExtractorKind::Regex { pattern } => {
                let caps = regex_capture_all(pattern.as_str(), text.as_str());
                let mut vals: Vec<String> = Vec::new();
                proof {
                    assert(vals.deep_view() =~= Seq::<Seq<char>>::empty());
                    if !regex_ok(pattern@) {
                        assert(caps.deep_view() =~= Seq::<Seq<char>>::empty());
                    }
                }
                extend_unique(&mut vals, caps);
                proof {
                    if !regex_ok(pattern@) {
                        assert(vals.deep_view() =~= extract_values(*self, text@));
                    }
                }
                let caps = regex_capture_all(pattern.as_str(), text.as_str());
                let mut vents: Vec<(String, String)> = Vec::new();
                if caps.len() > 0 {
                    proof {
                        if !regex_ok(pattern@) {
                            assert(false);
                        }
                    }
                    match version {
                        Option::Some(v) => {
                            let ghost goal = Seq::new(
                                v.fields@.len(),
                                |k: int| (
                                    v.fields@[k].0@,
                                    subst(v.fields@[k].1@, regex_captured(pattern@, text@)),
                                ),
                            );
                            let mut i: usize = 0;
                            while i < v.fields.len()
                                invariant
                                    i <= v.fields.len(),
                                    regex_ok(pattern@) && regex_captured(pattern@, text@).len()
                                        > 0,
                                    caps.deep_view() == regex_captured(pattern@, text@),
                                    goal == Seq::new(
                                        v.fields@.len(),
                                        |k: int| (
                                            v.fields@[k].0@,
                                            subst(v.fields@[k].1@, regex_captured(pattern@, text@)),
                                        ),
                                    ),
                                    vents@.len() == i,
                                    forall|k: int| 0 <= k < i ==> (#[trigger] vents@[k].0@,
                                        vents@[k].1@) == goal[k],
                                decreases v.fields.len() - i,
                            {
                                let key = v.fields[i].0.clone();
                                let val = substitute(v.fields[i].1.as_str(), &caps);
                                vents.push((key, val));
                                i += 1;
                            }
                            proof {
                                assert forall|k: int| 0 <= k < goal.len() implies pairs_view(
                                    vents@,
                                )[k] == goal[k] by {
                                    assert((vents@[k].0@, vents@[k].1@) == goal[k]);
                                }
                                assert(pairs_view(vents@) =~= goal);
                                assert(pairs_view(vents@) =~= version_entries(
                                    *self,
                                    text@,
                                    crate::info::version_view(*version),
                                ));
                            }
                        },
                        Option::None => {
                            proof {
                                assert(pairs_view(vents@) =~= Seq::<(Seq<char>, Seq<char>)>::empty());
                            }
                        },
                    }
                } else {
                    proof {
                        assert(pairs_view(vents@) =~= Seq::<(Seq<char>, Seq<char>)>::empty());
                    }
                }
                (vals, vents)
            },
            ExtractorKind::Json { path } => {
                let sel = json_select(path.as_str(), text.as_str());
                let mut vals: Vec<String> = Vec::new();
                proof {
                    assert(vals.deep_view() =~= Seq::<Seq<char>>::empty());
                }
                extend_unique(&mut vals, sel);
                let vents: Vec<(String, String)> = Vec::new();
                proof {
                    assert(pairs_view(vents@) =~= Seq::<(Seq<char>, Seq<char>)>::empty());
                }
                (vals, vents)
            },
            _ => {
                let vals: Vec<String> = Vec::new();
                let vents: Vec<(String, String)> = Vec::new();
                proof {
                    assert(vals.deep_view() =~= Seq::<Seq<char>>::empty());
                    assert(pairs_view(vents@) =~= Seq::<(Seq<char>, Seq<char>)>::empty());
                }
                (vals, vents)
            },
        }
    }
}

} // verus!
