//! The decisions of the book handler.
//!
//! Each operation alternates with work that only the caller can do: decoding a body,
//! calling the store, reading the store's cursor, writing to the connection. The functions
//! here take what that work gave and say what comes next: a call to the store, or the
//! reply to write. A reply ends the operation.
//!
//! Listing reads the cursor to its end. A record that cannot be decoded is answered with
//! an error reply of its own and left out; the records that could be decoded make up the
//! reply that ends the operation, in the order in which the cursor gave them.

use crate::book::{
    projection, record_of, Book, BookRequest, BookRequestView, BookResponse, BookResponseView,
    BookView,
};
use crate::envelope::{bad_request, internal_error, success, Envelope, EnvelopeView, StatusCode};
use crate::record_id::{
    bytes_of_hex, hex_of, is_hex_id, lemma_hex_round_trip, RecordId, ID_BYTES,
};
use vstd::prelude::*;

verus! {

/// Reply to a book that was stored.
pub open spec fn book_added() -> EnvelopeView {
    success("book added"@)
}

/// Reply to a creation request whose body could not be decoded.
pub open spec fn invalid_post_body() -> EnvelopeView {
    bad_request("invalid post body"@)
}

/// Reply to a creation request on which the store failed.
pub open spec fn store_failed() -> EnvelopeView {
    internal_error("internal server error"@)
}

/// Reply where the store failed to list or to delete.
pub open spec fn cursor_failed() -> EnvelopeView {
    internal_error("Error reading cursor"@)
}

/// Reply to a listed record that could not be decoded.
pub open spec fn deserialize_failed() -> EnvelopeView {
    internal_error("Deserialize failed"@)
}

/// Reply to a delete whose identifier is not one.
pub open spec fn invalid_object_id() -> EnvelopeView {
    bad_request("Invalid object ID"@)
}

/// Reply to a delete that the store carried out.
pub open spec fn deleted_successfully() -> EnvelopeView {
    success("Deleted Successfully"@)
}

/// What a decoded record, or the lack of one, holds.
pub open spec fn decoded_view(decoded: Option<Book>) -> Option<BookView> {
    match decoded {
        Some(book) => Some(book@),
        None => None,
    }
}

/// A listing after it has taken one more record from the cursor, where `None` stands for
/// a record that could not be decoded: a decoded record's projection is appended, an
/// undecodable record is left out.
pub open spec fn accepted(
    listing: Seq<BookResponseView>,
    decoded: Option<BookView>,
) -> Seq<BookResponseView> {
    match decoded {
        Some(book) => listing.push(projection(book)),
        None => listing,
    }
}

/// The reply that is written for one record from the cursor: none for a decoded record,
/// an error for an undecodable one.
pub open spec fn notice_for(decoded: Option<BookView>) -> Option<EnvelopeView> {
    match decoded {
        Some(_) => None,
        None => Some(deserialize_failed()),
    }
}

/// The listing after the first `n` of the records that a cursor gave.
pub open spec fn gathered(items: Seq<Option<BookView>>, n: int) -> Seq<BookResponseView>
    decreases n,
{
    if n <= 0 {
        Seq::empty()
    } else {
        accepted(gathered(items, n - 1), items[n - 1])
    }
}

/// What a vector of projections holds.
pub open spec fn responses_view(responses: Seq<BookResponse>) -> Seq<BookResponseView> {
    Seq::new(responses.len(), |i: int| responses[i]@)
}

/// What follows the decoding of a creation request's body.
#[derive(Debug, Clone, PartialEq, Eq)]
pub enum AddStep {
    /// Store this record.
    Create(Book),
    /// Write this reply; the store is not called.
    Respond(Envelope),
}

/// What follows the reading of a delete request's identifier.
#[derive(Debug, Clone, PartialEq, Eq)]
pub enum DeleteStep {
    /// Delete the record with this identifier.
    Delete(RecordId),
    /// Write this reply; the store is not called.
    Respond(Envelope),
}

/// What follows the store's answer to a find.
#[derive(Debug)]
pub enum ListStep {
    /// Read the cursor, handing each record to the listing.
    Read(Listing),
    /// Write this reply.
    Respond(Envelope),
}

/// A listing in progress: the projections of the records decoded so far.
#[derive(Debug)]
pub struct Listing {
    responses: Vec<BookResponse>,
}

impl View for Listing {
    type V = Seq<BookResponseView>;

    closed spec fn view(&self) -> Seq<BookResponseView> {
        responses_view(self.responses@)
    }
}

/// First step of a creation: `decoded` is the request read from the body, or `None`
/// where the body could not be decoded. A decoded request becomes a record under a newly
/// minted identifier, to be stored; an undecodable body is answered at once.
///
/// For a decoded request this panics where [`RecordId::generate`] does: if the system
/// clock reads a time before 1970 or after 2106.
pub fn add(decoded: Option<BookRequest>) -> (step: AddStep)
    ensures
        match step {
            AddStep::Create(book) => decoded is Some && book@.id.len() == ID_BYTES && book@
                == record_of(decoded.unwrap()@, book@.id),
            AddStep::Respond(envelope) => decoded is None && envelope@ == invalid_post_body(),
        },
{
    match decoded {
        Some(request) => AddStep::Create(request.request_to_book()),
        None => AddStep::Respond(Envelope::new("invalid post body", StatusCode::BadRequest)),
    }
}

/// Last step of a creation: the reply to what the store answered.
pub fn added<T, E>(stored: &Result<T, E>) -> (envelope: Envelope)
    ensures
        stored is Ok ==> envelope@ == book_added(),
        stored is Err ==> envelope@ == store_failed(),
{
    match stored {
        Ok(_) => Envelope::new("book added", StatusCode::Success),
        Err(_) => Envelope::new("internal server error", StatusCode::InternalServerError),
    }
}

/// First step of a listing: where the store answered the find with a cursor, an empty
/// listing to read it into; where it failed, the reply.
pub fn list<T, E>(found: &Result<T, E>) -> (step: ListStep)
    ensures
        match step {
            ListStep::Read(listing) => found is Ok && listing@ == Seq::<BookResponseView>::empty(),
            ListStep::Respond(envelope) => found is Err && envelope@ == cursor_failed(),
        },
{
    match found {
        Ok(_) => ListStep::Read(Listing::new()),
        Err(_) => ListStep::Respond(
            Envelope::new("Error reading cursor", StatusCode::InternalServerError),
        ),
    }
}

impl Listing {
    /// A listing that has read nothing yet.
    pub fn new() -> (listing: Listing)
        ensures
            listing@ == Seq::<BookResponseView>::empty(),
    {
        let listing = Listing { responses: Vec::new() };
        assert(listing@ =~= Seq::<BookResponseView>::empty());
        listing
    }

    /// Takes the next record that the cursor gave: `None` where it could not be decoded.
    /// A decoded record's projection joins the listing and nothing is written; an
    /// undecodable one leaves the listing as it is and gives the reply to write for it.
    pub fn accept(&mut self, decoded: Option<Book>) -> (notice: Option<Envelope>)
        ensures
            final(self)@ == accepted(old(self)@, decoded_view(decoded)),
            match notice {
                Some(envelope) => notice_for(decoded_view(decoded)) == Some(envelope@),
                None => notice_for(decoded_view(decoded)) is None,
            },
    {
        match decoded {
            Some(book) => {
                let ghost before = self@;
                self.responses.push(book.book_to_response());
                assert(self@ =~= before.push(projection(book@)));
                None
            },
            None => Some(Envelope::new("Deserialize failed", StatusCode::InternalServerError)),
        }
    }

    /// The projections gathered so far, in the order in which the cursor gave the records.
    pub fn records(&self) -> (records: &Vec<BookResponse>)
        ensures
            responses_view(records@) == self@,
    {
        &self.responses
    }

    /// Last step of a listing, at the end of the cursor: the reply, whose message is the
    /// rendering of the gathered projections that the caller made.
    pub fn finish(self, rendered: String) -> (envelope: Envelope)
        ensures
            envelope@ == success(rendered@),
    {
        Envelope { message: rendered, code: StatusCode::Success }
    }

    /// Last step of a listing whose cursor failed part-way: the reply.
    pub fn failed(self) -> (envelope: Envelope)
        ensures
            envelope@ == cursor_failed(),
    {
        Envelope::new("Error reading cursor", StatusCode::InternalServerError)
    }
}

/// First step of a delete: `id` is the identifier as the request gave it. Where it is the
/// display form of an identifier, that identifier's record is to be deleted; anything else
/// is answered at once.
pub fn delete(id: &str) -> (step: DeleteStep)
    ensures
        match step {
            DeleteStep::Delete(record) => is_hex_id(id@) && record@ == bytes_of_hex(id@),
            DeleteStep::Respond(envelope) => !is_hex_id(id@) && envelope@ == invalid_object_id(),
        },
{
    match RecordId::parse_str(id) {
        Some(record) => DeleteStep::Delete(record),
        None => DeleteStep::Respond(Envelope::new("Invalid object ID", StatusCode::BadRequest)),
    }
}

/// Last step of a delete: the reply to what the store answered, which on success is the
/// number of records it deleted. That number does not matter: deleting nothing is a
/// success too.
pub fn deleted<E>(outcome: &Result<u64, E>) -> (envelope: Envelope)
    ensures
        outcome is Ok ==> envelope@ == deleted_successfully(),
        outcome is Err ==> envelope@ == cursor_failed(),
{
    match outcome {
        Ok(_) => Envelope::new("Deleted Successfully", StatusCode::Success),
        Err(_) => Envelope::new("Error reading cursor", StatusCode::InternalServerError),
    }
}

/// No more is gathered than was read.
pub proof fn lemma_gathered_bounded(items: Seq<Option<BookView>>, n: int)
    requires
        0 <= n,
    ensures
        gathered(items, n).len() <= n,
    decreases n,
{
    if n > 0 {
        lemma_gathered_bounded(items, n - 1);
    }
}

/// A listing only grows: what was gathered from the first `m` records stays, in its
/// order, at the front of what is gathered from the first `n`.
pub proof fn lemma_gathered_grows(items: Seq<Option<BookView>>, m: int, n: int)
    requires
        0 <= m <= n,
    ensures
        gathered(items, m).len() <= gathered(items, n).len(),
        gathered(items, n).subrange(0, gathered(items, m).len() as int) == gathered(items, m),
    decreases n - m,
{
    let kept = gathered(items, m).len() as int;
    if m < n {
        lemma_gathered_grows(items, m, n - 1);
        assert(gathered(items, n).subrange(0, kept) =~= gathered(items, n - 1).subrange(0, kept));
    } else {
        assert(gathered(items, n).subrange(0, kept) =~= gathered(items, n));
    }
}

/// Every record that could be decoded is listed: its projection stands in the listing,
/// behind the projections of the decoded records that the cursor gave before it.
pub proof fn lemma_decoded_is_listed(items: Seq<Option<BookView>>, i: int)
    requires
        0 <= i < items.len(),
        items[i] is Some,
    ensures
        gathered(items, i).len() < gathered(items, items.len() as int).len(),
        gathered(items, items.len() as int)[gathered(items, i).len() as int]
            == projection(items[i].unwrap()),
{
    let n = items.len() as int;
    let at = gathered(items, i).len() as int;
    lemma_gathered_grows(items, i + 1, n);
    assert(gathered(items, i + 1)[at] == projection(items[i].unwrap()));
    assert(gathered(items, n).subrange(0, at + 1)[at] == gathered(items, n)[at]);
}

/// Where every record could be decoded, the listing holds the projection of each, in the
/// cursor's order.
pub proof fn lemma_all_decoded(items: Seq<Option<BookView>>, n: int)
    requires
        0 <= n <= items.len(),
        forall|i: int| 0 <= i < n ==> (#[trigger] items[i]) is Some,
    ensures
        gathered(items, n).len() == n,
        forall|i: int|
            0 <= i < n ==> (#[trigger] gathered(items, n)[i]) == projection(items[i].unwrap()),
    decreases n,
{
    if n > 0 {
        lemma_all_decoded(items, n - 1);
        assert(items[n - 1] is Some);
    }
}

/// A created record is listed as it was given: stored under the identifier `id` and read
/// back, a request's record is shown with the request's title, author and release, under
/// the display form of `id`, which is not empty and names that identifier and no other.
pub proof fn lemma_created_is_listed(
    request: BookRequestView,
    id: Seq<u8>,
    listing: Seq<BookResponseView>,
)
    requires
        id.len() == ID_BYTES,
    ensures
        ({
            let shown = accepted(listing, Some(record_of(request, id))).last();
            &&& shown.title == request.title
            &&& shown.author == request.author
            &&& shown.release == request.release
            &&& shown.id == hex_of(id)
            &&& shown.id.len() == 24
            &&& is_hex_id(shown.id)
            &&& bytes_of_hex(shown.id) == id
        }),
{
    lemma_hex_round_trip(id);
}

} // verus!
