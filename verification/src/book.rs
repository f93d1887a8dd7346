//! Book records, the requests that create them and the projections sent back to clients.
//!
//! A release date is held as milliseconds since the Unix epoch, which is what the store's
//! date type holds.

use crate::record_id::{hex_of, RecordId, ID_BYTES};
use vstd::prelude::*;

verus! {

/// The release date of a record made by [`Book::default`], in milliseconds since the
/// epoch: the first instant of `chrono`'s earliest year, -262143.
pub const MIN_RELEASE_MILLIS: i64 = -8334601228800000;

/// A stored book.
#[derive(Debug, Clone, PartialEq, Eq)]
pub struct Book {
    pub id: RecordId,
    pub title: String,
    pub author: String,
    pub release: i64,
}

/// What a client sends to create a book: a record without an identifier.
#[derive(Debug, Clone, PartialEq, Eq)]
pub struct BookRequest {
    pub title: String,
    pub author: String,
    pub release: i64,
}

/// What a client is shown of a book: the identifier in its display form, and the fields.
#[derive(Debug, Clone, PartialEq, Eq)]
pub struct BookResponse {
    pub id: String,
    pub title: String,
    pub author: String,
    pub release: i64,
}

/// What a [`Book`] holds.
pub struct BookView {
    pub id: Seq<u8>,
    pub title: Seq<char>,
    pub author: Seq<char>,
    pub release: i64,
}

/// What a [`BookRequest`] holds.
pub struct BookRequestView {
    pub title: Seq<char>,
    pub author: Seq<char>,
    pub release: i64,
}

/// What a [`BookResponse`] holds.
pub struct BookResponseView {
    pub id: Seq<char>,
    pub title: Seq<char>,
    pub author: Seq<char>,
    pub release: i64,
}

impl View for Book {
    type V = BookView;

    open spec fn view(&self) -> BookView {
        BookView { id: self.id@, title: self.title@, author: self.author@, release: self.release }
    }
}

impl View for BookRequest {
    type V = BookRequestView;

    open spec fn view(&self) -> BookRequestView {
        BookRequestView { title: self.title@, author: self.author@, release: self.release }
    }
}

impl View for BookResponse {
    type V = BookResponseView;

    open spec fn view(&self) -> BookResponseView {
        BookResponseView {
            id: self.id@,
            title: self.title@,
            author: self.author@,
            release: self.release,
        }
    }
}

/// The record that a request becomes once it has been given the identifier `id`.
pub open spec fn record_of(request: BookRequestView, id: Seq<u8>) -> BookView {
    BookView { id, title: request.title, author: request.author, release: request.release }
}

/// The projection of a record: its fields, with the identifier in display form.
pub open spec fn projection(book: BookView) -> BookResponseView {
    BookResponseView {
        id: hex_of(book.id),
        title: book.title,
        author: book.author,
        release: book.release,
    }
}

/// Calls `bson::DateTime::from` on `chrono::MIN_DATETIME` and hands out the milliseconds
/// it holds. `chrono` defines the constant as midnight, 1 January of its earliest year
/// (-262143), in UTC; `bson` keeps `timestamp_millis()` of it.
#[verifier::external_body]
fn min_datetime_millis() -> (millis: i64)
    ensures
        millis == MIN_RELEASE_MILLIS,
{
    #[allow(deprecated)]
    let earliest = chrono::MIN_DATETIME;
    bson::DateTime::from(earliest).timestamp_millis()
}

impl Book {
    /// The projection of this record that is sent to clients.
    pub fn book_to_response(&self) -> (response: BookResponse)
        ensures
            response@ == projection(self@),
    {
        BookResponse {
            id: self.id.to_hex(),
            title: self.title.clone(),
            author: self.author.clone(),
            release: self.release,
        }
    }
}

impl Default for Book {
    /// A record with a newly minted identifier, empty texts and the earliest release date.
    ///
    /// Panics where [`RecordId::generate`] does: if the system clock reads a time before
    /// 1970 or after 2106.
    fn default() -> (book: Book)
        ensures
            book@.id.len() == ID_BYTES,
            book@.title == Seq::<char>::empty(),
            book@.author == Seq::<char>::empty(),
            book@.release == MIN_RELEASE_MILLIS,
    {
        Book {
            id: RecordId::generate(),
            title: String::new(),
            author: String::new(),
            release: min_datetime_millis(),
        }
    }
}

impl BookRequest {
    /// The record that this request becomes under the identifier `id`.
    pub fn to_book_with(&self, id: RecordId) -> (book: Book)
        ensures
            book@ == record_of(self@, id@),
    {
        Book { id, title: self.title.clone(), author: self.author.clone(), release: self.release }
    }

    /// The record that this request becomes: its fields, under a newly minted identifier.
    ///
    /// Panics where [`RecordId::generate`] does: if the system clock reads a time before
    /// 1970 or after 2106.
    pub fn request_to_book(&self) -> (book: Book)
        ensures
            book@ == record_of(self@, book@.id),
            book@.id.len() == ID_BYTES,
    {
        self.to_book_with(RecordId::generate())
    }
}

} // verus!
