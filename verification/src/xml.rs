//! Entry from raw save-file text.
//!
//! An external XML parser turns the text into the crate's document tree;
//! everything after that call is verified. Parsing is deterministic — the
//! tree is a function of the text alone — but stating the XML grammar is out
//! of reach, so an uninterpreted name stands for the parse result and the
//! decoder's contract is exact relative to that name.

use vstd::prelude::*;

use crate::error::DecodeError;
use crate::stats::{spec_stats_from, view_result, Stats};

verus! {

/// The document tree that parsing a given text yields, if the text is a
/// well-formed document.
pub uninterp spec fn parsed_doc(s: Seq<char>) -> Option<crate::document::Node>;

#[verifier::external_type_specification]
#[verifier::external_body]
pub struct ExElement(minidom::Element);

/// Relies on minidom's element accessors: one parsed element converted
/// field by field — name, attribute pairs, child elements, text — into the
/// crate's tree.
#[verifier::external_body]
fn tree_of_element(el: &minidom::Element) -> crate::document::Node {
    crate::document::Node {
        name: el.name().to_string(),
        attrs: el.attrs().iter().map(|((_ns, k), v)| (k.to_string(), v.to_string())).collect(),
        children: el.children().map(tree_of_element).collect(),
        text: el.text(),
    }
}

/// Relies on minidom's reader: parsing is a pure function of the text. The
/// empty namespace is supplied for documents that declare none, as save
/// files do not.
#[verifier::external_body]
fn parse_document(s: &str) -> (r: Option<crate::document::Node>)
    ensures
        r == parsed_doc(s@),
{
    match minidom::Element::from_reader_with_prefixes(s.as_bytes(), String::new()) {
        Ok(el) => Some(tree_of_element(&el)),
        Err(_) => None,
    }
}

impl Stats {
    /// Decodes raw save-file text: parses it into a document tree and then
    /// decodes the tree. Text that is not a well-formed document fails the
    /// same way as a document with the wrong root.
    pub fn from_save_str(s: &str) -> (r: Result<Stats, DecodeError>)
        ensures
            parsed_doc(s@) matches Some(doc) ==> view_result(r) == spec_stats_from(doc),
            parsed_doc(s@) is None ==> r == Err::<Stats, DecodeError>(DecodeError::Structure),
    {
        match parse_document(s) {
            None => Err(DecodeError::Structure),
            Some(doc) => Stats::from_save(&doc),
        }
    }
}

} // verus!
