//! The search boxes of the ledgers: a query trimmed and lower-cased, looked
//! for in a row's texts joined with spaces and lower-cased.
use vstd::prelude::*;
use crate::text::{
    contains, contains_str, join_names, joined, lowercase, name_texts, to_lowercase, trim, trim_str,
};

verus! {

/// The query a search box holds: trimmed and lower-cased.
pub fn search_query(keyword: &str) -> (r: String)
    ensures
        r@ == lowercase(trim(keyword@)),
{
    to_lowercase(trim_str(keyword))
}

/// A row's texts, joined with spaces and lower-cased, contain the query;
/// an empty query matches every row.
pub open spec fn text_matches(query: Seq<char>, parts: Seq<Seq<char>>) -> bool {
    query.len() == 0 || contains(lowercase(joined(parts, " "@)), query)
}

/// `text_matches` of a row's texts.
pub fn matches_search(query: &str, parts: &Vec<String>) -> (r: bool)
    ensures
        r == text_matches(query@, name_texts(parts@)),
{
    if query.unicode_len() == 0 {
        return true;
    }
    let text = join_names(parts, " ");
    let lower = to_lowercase(text.as_str());
    contains_str(lower.as_str(), query)
}

} // verus!
