//! Extracts the public API surface of a library crate from a rustdoc JSON
//! document and diffs two such surfaces.
//!
//! The main entry point is [`public_api_from_rustdoc_json_str`]: it decodes a
//! rustdoc JSON string into an item index, walks the item graph into a list of
//! [`PublicItem`]s (one per public item of the crate), and optionally sorts
//! them. Two such lists can then be compared with
//! [`diff::PublicItemsDiff::between`].

use vstd::prelude::*;

pub mod decode;
pub mod diff;
pub mod intermediate_public_item;
pub mod item_index;
pub mod item_iterator;
pub mod json;
pub mod ordering;
pub mod plain;
pub mod render;
pub mod rustdoc_json;
pub mod tokens;

pub use crate::item_iterator::PublicItem;
pub use crate::tokens::Token;

use crate::item_iterator::{items_view, spec_extract, spec_sort_items, PublicItemV};
use crate::json::{json_doc_of, JsonV};
use crate::ordering::strs_view;

verus! {

/// All ways an extraction pass can fail. An empty-but-valid result is not an
/// error; only an input document that cannot be decoded at all is.
#[derive(Debug)]
pub enum Error {
    /// The input text is not valid JSON; carries the parser's message.
    SerdeJsonError(String),
    /// The input is valid JSON but does not fit the document schema.
    MalformedDocument,
}

/// This constant defines the minimum version of nightly that is required in
/// order for the rustdoc JSON output to be parsable by this library.
pub const MINIMUM_RUSTDOC_JSON_VERSION: &'static str = "nightly-2022-09-08";

/// Contains various options that you can pass to
/// [`public_api_from_rustdoc_json_str`].
#[derive(Copy, Clone, Debug)]
pub struct Options {
    /// If `true`, items part of blanket implementations are included in the
    /// list of public items of a crate. The default is `false`: the presence
    /// of these items mostly constitutes noise.
    pub with_blanket_implementations: bool,

    /// If `true`, items are sorted (lexicographically by rendered text)
    /// before being returned.
    pub sorted: bool,
}

impl Default for Options {
    /// The default options: blanket implementations excluded, output sorted.
    fn default() -> (r: Self)
        ensures
            !r.with_blanket_implementations,
            r.sorted,
    {
        Options { with_blanket_implementations: false, sorted: true }
    }
}

/// The public API of one crate: the items that constitute it, and the
/// identifiers of items that were referenced but missing from the input
/// (re-exports of external modules leave such dangling references; they are
/// diagnostics, not failures).
#[derive(Debug)]
pub struct PublicApi {
    /// The items that constitute the public API: one per public item of the
    /// crate.
    pub items: Vec<PublicItem>,
    /// The identifiers of referenced but missing items, in traversal order.
    pub missing_item_ids: Vec<String>,
}

/// What a whole extraction pass yields for a given input text: a function of
/// the text and the options alone.
pub ghost enum PassOutcome {
    /// The text is not valid JSON.
    InvalidJson,
    /// The text is valid JSON but not a valid input document.
    MalformedDocument,
    /// The extracted public items and the missing identifiers.
    Extracted(Seq<PublicItemV>, Seq<Seq<char>>),
}

/// The outcome of one extraction pass over the given input text.
pub open spec fn spec_pass(s: Seq<char>, options: Options) -> PassOutcome {
    match json_doc_of(s) {
        Option::None => PassOutcome::InvalidJson,
        Option::Some(doc) => match crate::decode::spec_decode_doc(doc) {
            Option::None => PassOutcome::MalformedDocument,
            Option::Some(ix) => PassOutcome::Extracted(
                if options.sorted {
                    spec_sort_items(spec_extract(ix, options).0)
                } else {
                    spec_extract(ix, options).0
                },
                spec_extract(ix, options).1,
            ),
        },
    }
}

/// Takes rustdoc JSON and returns the crate's public API: one [`PublicItem`]
/// per public item of the crate, sorted by rendered text when the options
/// ask for sorted output, together with the referenced-but-missing
/// identifiers. Fails exactly when the input cannot be decoded: invalid JSON
/// gives [`Error::SerdeJsonError`], a JSON document that does not fit the
/// input schema gives [`Error::MalformedDocument`]. An empty-but-valid
/// result is not an error.
pub fn public_api_from_rustdoc_json_str(rustdoc_json_str: &str, options: Options) -> (r: Result<
    PublicApi,
    Error,
>)
    ensures
        match r {
            Result::Ok(api) => spec_pass(rustdoc_json_str@, options) == PassOutcome::Extracted(
                items_view(api.items@),
                strs_view(api.missing_item_ids@),
            ),
            Result::Err(Error::SerdeJsonError(_)) => spec_pass(rustdoc_json_str@, options)
                == PassOutcome::InvalidJson,
            Result::Err(Error::MalformedDocument) => spec_pass(rustdoc_json_str@, options)
                == PassOutcome::MalformedDocument,
        },
{
    match crate::json::parse_document(rustdoc_json_str) {
        Result::Err(msg) => Result::Err(Error::SerdeJsonError(msg)),
        Result::Ok(doc) => match crate::decode::decode_document(&doc) {
            Result::Err(e) => Result::Err(e),
            Result::Ok(ix) => {
                let (extracted, missing) = crate::item_iterator::public_api_in_index(
                    &ix,
                    options,
                );
                let final_items = if options.sorted {
                    crate::item_iterator::sort_public_items(extracted)
                } else {
                    extracted
                };
                Result::Ok(PublicApi { items: final_items, missing_item_ids: missing })
            },
        },
    }
}

/// Extraction is idempotent: the outcome of a pass is a function of the
/// input text and the options alone, so extracting the same input twice with
/// the same configuration yields identical, identically ordered output.
pub proof fn lemma_extraction_deterministic(
    s: Seq<char>,
    options: Options,
    a: (Seq<PublicItemV>, Seq<Seq<char>>),
    b: (Seq<PublicItemV>, Seq<Seq<char>>),
)
    requires
        spec_pass(s, options) == PassOutcome::Extracted(a.0, a.1),
        spec_pass(s, options) == PassOutcome::Extracted(b.0, b.1),
    ensures
        a == b,
{
}

} // verus!
