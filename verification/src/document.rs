//! The store's document type, `bson::Document`, as the library sees it: an insertion-ordered
//! sequence of keyed values.

use crate::entries::put;
use crate::record_id::RecordId;
use vstd::prelude::*;

verus! {

/// `bson::Document`, kept opaque: its contents are spoken of through [`document_entries`].
#[verifier::external_type_specification]
#[verifier::external_body]
pub struct ExDocument(bson::Document);

/// A value that this library stores in a document.
#[derive(Clone, Debug, PartialEq, Eq)]
pub enum Value {
    /// A 32-bit integer, such as a sort direction.
    Int32(i32),
    /// A text value.
    Text(String),
    /// A record identifier.
    Id(RecordId),
}

/// What a [`Value`] holds.
pub enum ValueView {
    Int32(i32),
    Text(Seq<char>),
    Id(Seq<u8>),
}

impl View for Value {
    type V = ValueView;

    open spec fn view(&self) -> ValueView {
        match self {
            Value::Int32(n) => ValueView::Int32(*n),
            Value::Text(s) => ValueView::Text(s@),
            Value::Id(id) => ValueView::Id(id@),
        }
    }
}

/// The entries of a document built by this library, in their order.
pub uninterp spec fn document_entries(doc: bson::Document) -> Seq<(Seq<char>, ValueView)>;

/// `bson::Document::new` makes a document with no entries.
pub assume_specification[ bson::Document::new ]() -> (doc: bson::Document)
    ensures
        document_entries(doc) == Seq::<(Seq<char>, ValueView)>::empty(),
;

/// Calls `bson::Document::insert`, which is `indexmap::IndexMap::insert`: where the key is
/// already present its entry keeps its place and takes the new value, otherwise the pair
/// becomes the last entry. The value goes in as `Bson::Int32`, `Bson::String` or
/// `Bson::ObjectId`.
#[verifier::external_body]
pub(crate) fn document_insert(doc: &mut bson::Document, key: &str, value: Value)
    ensures
        document_entries(*final(doc)) == put(document_entries(*old(doc)), key@, value@),
{
    match value {
        Value::Int32(n) => doc.insert(key, n),
        Value::Text(text) => doc.insert(key, text),
        Value::Id(id) => doc.insert(key, bson::oid::ObjectId::from_bytes(id.bytes)),
    };
}

} // verus!
