//! Per-template metadata, read-only to this engine. The only read contract
//! is the expected-version hint: an ordered list of `(field, template)`
//! pairs whose templates may name regex capture groups as `$1`..`$9`.
use vstd::prelude::*;

use crate::strings::clone_string_pairs;

verus! {

/// The expected-version extraction hint of a template.
pub struct Version {
    pub fields: Vec<(String, String)>,
}

/// Per-template metadata; this engine reads only the version hint.
pub struct Info {
    pub version: Option<Version>,
}

/// The texts of a list of string pairs.
pub open spec fn pairs_view(v: Seq<(String, String)>) -> Seq<(Seq<char>, Seq<char>)> {
    Seq::new(v.len(), |i: int| (v[i].0@, v[i].1@))
}

/// The texts of an optional version hint.
pub open spec fn version_view(v: Option<Version>) -> Option<Seq<(Seq<char>, Seq<char>)>> {
    match v {
        Option::Some(ver) => Option::Some(pairs_view(ver.fields@)),
        Option::None => Option::None,
    }
}

impl Info {
    /// The expected-version hint, copied for one evaluation pass.
    pub fn get_version(&self) -> (r: Option<Version>)
        ensures
            version_view(r) == version_view(self.version),
    {
        match &self.version {
            Option::Some(v) => {
                let fields = clone_string_pairs(&v.fields);
                proof {
                    assert(pairs_view(fields@) =~= pairs_view(v.fields@));
                }
                Option::Some(Version { fields })
            },
            Option::None => Option::None,
        }
    }
}

} // verus!
