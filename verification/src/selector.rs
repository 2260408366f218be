//! Picking values out of documents, by names that have dots between their parts.
use vstd::prelude::*;

use crate::json;
use crate::json::{Document, Field, Json, Value};
use crate::text;

verus! {

/// What picks values out of documents. Nothing is assumed of what it returns.
pub trait Selector {
    /// The part of a document that names select.
    fn select_values(&self, document: &Document, names: &Vec<String>) -> Document;

    /// The leaves of a document that names select: its values that are neither objects nor arrays,
    /// each under its name.
    fn leaf_values(&self, document: &Document, names: &Vec<String>) -> Vec<(String, Value)>;

    /// A document with other values in the places of the leaves that names select.
    fn replace_leaves(
        &self,
        document: Document,
        names: &Vec<String>,
        values: Vec<Value>,
    ) -> Document;
}

/// Whether this can be the part of a document that names select.
pub open spec fn selects<S: Selector>(
    selector: S,
    document: Seq<Field>,
    names: Seq<Seq<char>>,
    part: Seq<Field>,
) -> bool {
    exists|read: &Document, selectors: &Vec<String>, out: Document| #[trigger]
        call_ensures(S::select_values, (&selector, read, selectors), out) && read@ == document
            && text::texts(selectors@) == names && out@ == part
}

/// Whether these can be the leaves of a document that names select.
pub open spec fn lists<S: Selector>(
    selector: S,
    document: Seq<Field>,
    names: Seq<Seq<char>>,
    leaves: Seq<Field>,
) -> bool {
    exists|read: &Document, selectors: &Vec<String>, out: Vec<(String, Value)>| #[trigger]
        call_ensures(S::leaf_values, (&selector, read, selectors), out) && read@ == document
            && text::texts(selectors@) == names && json::fields_of(out@) == leaves
}

/// Whether this can be a document with values in the places of the leaves that names select.
pub open spec fn replaces<S: Selector>(
    selector: S,
    document: Seq<Field>,
    names: Seq<Seq<char>>,
    values: Seq<Json>,
    after: Seq<Field>,
) -> bool {
    exists|read: Document, selectors: &Vec<String>, written: Vec<Value>, out: Document|
        #[trigger]
        call_ensures(S::replace_leaves, (&selector, read, selectors, written), out)
            && read@ == document && text::texts(selectors@) == names
            && written@.map_values(|v: Value| v@) == values && out@ == after
}

/// The part of a document that names select is what comes back for that very document and those
/// very names; so are the leaves of a document, and so is a document with other values in their
/// places, for those very values.
pub proof fn law_asked_as_told<S: Selector>(
    selector: S,
    document: Seq<Field>,
    names: Seq<Seq<char>>,
    part: Seq<Field>,
    leaves: Seq<Field>,
    values: Seq<Json>,
    after: Seq<Field>,
)
    requires
        selects(selector, document, names, part),
        lists(selector, document, names, leaves),
        replaces(selector, document, names, values, after),
    ensures
        exists|read: &Document, selectors: &Vec<String>, out: Document|
            {
                &&& #[trigger] call_ensures(S::select_values, (&selector, read, selectors), out)
                &&& read@ == document && text::texts(selectors@) == names
                &&& out@ == part
            },
        exists|read: &Document, selectors: &Vec<String>, out: Vec<(String, Value)>|
            {
                &&& #[trigger] call_ensures(S::leaf_values, (&selector, read, selectors), out)
                &&& read@ == document && text::texts(selectors@) == names
                &&& json::fields_of(out@) == leaves
            },
        exists|read: Document, selectors: &Vec<String>, written: Vec<Value>, out: Document|
            {
                &&& #[trigger] call_ensures(
                    S::replace_leaves,
                    (&selector, read, selectors, written),
                    out,
                )
                &&& read@ == document && text::texts(selectors@) == names
                &&& written@.map_values(|v: Value| v@) == values && out@ == after
            },
{
}

} // verus!
