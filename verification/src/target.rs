//! The content accessor: a matcher or extractor asks a target for a named
//! part and receives a tokenized word list plus the part's raw text. A target
//! models what the engine reads from an already-performed exchange: the
//! header text, the body text and the raw bytes rendered as text, each absent
//! when the exchange did not produce it. Response metadata (status code and
//! the precomputed favicon hash map) travels separately, since only
//! response-like targets carry it.
use vstd::prelude::*;

use crate::Error;
use crate::strings::split_lines;
use crate::strings::split_seq;

verus! {

/// A named slice of retrievable content.
#[derive(Clone, Copy, Debug, PartialEq, Eq, Structural)]
pub enum Part {
    /// The header text, one `name: value` line per header.
    Header,
    /// The body text.
    Body,
    /// The whole raw exchange as text.
    All,
}

impl Default for Part {
    /// Matchers and extractors read the body unless told otherwise.
    fn default() -> (r: Self)
        ensures
            r == Part::Body,
    {
        Part::Body
    }
}

/// One entry of the precomputed favicon hash map: the two digests under
/// which a fetched favicon is fingerprinted.
pub struct FaviconMap {
    pub md5: String,
    pub mmh3: String,
}

/// What only a response-like target carries: its status code, and the
/// favicon hash map when a favicon probe preceded this evaluation.
pub struct ResponseMeta {
    pub status_code: u16,
    pub favicon: Option<Vec<FaviconMap>>,
}

/// A request-like or response-like content source, reduced to its parts.
pub struct OperatorTarget {
    pub header: Option<String>,
    pub body: Option<String>,
    pub raw: Option<String>,
}

/// A response: its content parts plus its metadata.
pub struct ResponseTarget {
    pub target: OperatorTarget,
    pub meta: ResponseMeta,
}

/// The text of a part, when the target can produce it.
pub open spec fn part_text(t: OperatorTarget, p: Part) -> Option<Seq<char>> {
    match p {
        Part::Header => match t.header {
            Option::Some(s) => Option::Some(s@),
            Option::None => Option::None,
        },
        Part::Body => match t.body {
            Option::Some(s) => Option::Some(s@),
            Option::None => Option::None,
        },
        Part::All => match t.raw {
            Option::Some(s) => Option::Some(s@),
            Option::None => Option::None,
        },
    }
}

/// Whether the target can produce the part.
pub open spec fn part_ok(t: OperatorTarget, p: Part) -> bool {
    part_text(t, p) is Some
}

/// The text of a part, empty when the part is unavailable.
pub open spec fn part_text_or_empty(t: OperatorTarget, p: Part) -> Seq<char> {
    match part_text(t, p) {
        Option::Some(s) => s,
        Option::None => Seq::empty(),
    }
}

/// Tokenization policy: the header part is split into its lines, one word
/// per `name: value` header line; every other part is a single word holding
/// the whole text.
pub open spec fn tokens_of(p: Part, text: Seq<char>) -> Seq<Seq<char>> {
    match p {
        Part::Header => split_seq(text, '\n'),
        Part::Body => seq![text],
        Part::All => seq![text],
    }
}

/// The word list of a part.
pub open spec fn part_words(t: OperatorTarget, p: Part) -> Seq<Seq<char>> {
    tokens_of(p, part_text_or_empty(t, p))
}

impl Part {
    /// Resolves this part against a target: the tokenized word list and the
    /// raw part text, or a retrieval error when the target cannot produce
    /// the part.
    pub fn get_matcher_word_from_part(&self, target: &OperatorTarget) -> (r: Result<
        (Vec<String>, String),
        Error,
    >)
        ensures
            r is Ok <==> part_ok(*target, *self),
            r matches Ok(wb) ==> wb.0.deep_view() == part_words(*target, *self) && wb.1@
                == part_text_or_empty(*target, *self),
            r matches Err(e) ==> e == Error::PartUnavailable,
    {
        let text: &String = match self {
            Part::Header => match &target.header {
                Option::Some(s) => s,
                Option::None => {
                    return Result::Err(Error::PartUnavailable);
                },
            },
            Part::Body => match &target.body {
                Option::Some(s) => s,
                Option::None => {
                    return Result::Err(Error::PartUnavailable);
                },
            },
            Part::All => match &target.raw {
                Option::Some(s) => s,
                Option::None => {
                    return Result::Err(Error::PartUnavailable);
                },
            },
        };
        let words: Vec<String> = match self {
            Part::Header => split_lines(text.as_str()),
            _ => {
                let mut w: Vec<String> = Vec::new();
                w.push(text.clone());
                proof {
                    assert(w.deep_view() =~= seq![text@]);
                }
                w
            },
        };
        Result::Ok((words, text.clone()))
    }
}

impl OperatorTarget {
    /// A target that can produce no part at all; every matcher against it
    /// reports a retrieval error.
    pub fn unavailable() -> (r: Self)
        ensures
            r == (OperatorTarget { header: Option::None, body: Option::None, raw: Option::None }),
    {
        OperatorTarget { header: Option::None, body: Option::None, raw: Option::None }
    }
}

impl ResponseTarget {
    /// Stands in when an evaluation holds no response: no parts, status 0,
    /// no favicon map. Matchers against it fail with a retrieval error and
    /// their operator blocks contribute nothing.
    pub fn absent() -> (r: Self)
        ensures
            r == spec_absent_response(),
    {
        ResponseTarget {
            target: OperatorTarget::unavailable(),
            meta: ResponseMeta { status_code: 0u16, favicon: Option::None },
        }
    }
}

/// The stand-in response used when none is available.
pub open spec fn spec_absent_response() -> ResponseTarget {
    ResponseTarget {
        target: OperatorTarget { header: Option::None, body: Option::None, raw: Option::None },
        meta: ResponseMeta { status_code: 0u16, favicon: Option::None },
    }
}

} // verus!
