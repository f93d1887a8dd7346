use books_api::book::{Book, BookRequest, BookResponse};
use books_api::book_handler::{add, added, delete, deleted, list, AddStep, DeleteStep, ListStep, Listing};
use books_api::envelope::{Envelope, StatusCode};
use books_api::record_id::RecordId;

fn envelope(message: &str, code: StatusCode) -> Envelope {
    Envelope { message: message.to_string(), code }
}

fn book(n: u8, title: &str) -> Book {
    Book {
        id: RecordId { bytes: [n; 12] },
        title: title.to_string(),
        author: "someone".to_string(),
        release: 1000 * n as i64,
    }
}

fn shown(n: u8, title: &str) -> BookResponse {
    book(n, title).book_to_response()
}

#[test]
fn add_without_a_decoded_body_is_a_bad_request() {
    assert_eq!(
        add(None),
        AddStep::Respond(envelope("invalid post body", StatusCode::BadRequest))
    );
}

#[test]
fn add_with_a_decoded_body_creates_the_record() {
    let request = BookRequest {
        title: "Dune".to_string(),
        author: "Frank Herbert".to_string(),
        release: -138_931_200_000,
    };
    match add(Some(request.clone())) {
        AddStep::Create(book) => {
            assert_eq!(book.title, request.title);
            assert_eq!(book.author, request.author);
            assert_eq!(book.release, request.release);
            assert_eq!(book.id.to_hex().len(), 24);
        }
        AddStep::Respond(envelope) => panic!("unexpected reply {:?}", envelope),
    }
}

#[test]
fn add_twice_creates_two_identifiers() {
    let request = BookRequest { title: "a".to_string(), author: "b".to_string(), release: 0 };
    let first = add(Some(request.clone()));
    let second = add(Some(request));
    match (first, second) {
        (AddStep::Create(a), AddStep::Create(b)) => assert_ne!(a.id, b.id),
        other => panic!("unexpected steps {:?}", other),
    }
}

#[test]
fn added_replies_to_the_store() {
    let stored: Result<&str, ()> = Ok("inserted");
    assert_eq!(added(&stored), envelope("book added", StatusCode::Success));
    let failed: Result<(), &str> = Err("write conflict");
    assert_eq!(added(&failed), envelope("internal server error", StatusCode::InternalServerError));
}

#[test]
fn delete_with_an_invalid_identifier_is_a_bad_request() {
    for id in ["", "abc", "0123456789abcdef00ff100", "0123456789abcdef00ff100g", "not an identifier at all"] {
        assert_eq!(
            delete(id),
            DeleteStep::Respond(envelope("Invalid object ID", StatusCode::BadRequest))
        );
    }
}

#[test]
fn delete_with_a_valid_identifier_deletes_that_record() {
    assert_eq!(
        delete("63ceed18f71dda7d8cf21e8e"),
        DeleteStep::Delete(RecordId {
            bytes: [0x63, 0xce, 0xed, 0x18, 0xf7, 0x1d, 0xda, 0x7d, 0x8c, 0xf2, 0x1e, 0x8e]
        })
    );
}

#[test]
fn deleting_nothing_is_still_a_success() {
    let none: Result<u64, ()> = Ok(0);
    assert_eq!(deleted(&none), envelope("Deleted Successfully", StatusCode::Success));
    let one: Result<u64, ()> = Ok(1);
    assert_eq!(deleted(&one), envelope("Deleted Successfully", StatusCode::Success));
}

#[test]
fn delete_failing_in_the_store_is_an_internal_error() {
    let failed: Result<u64, &str> = Err("down");
    assert_eq!(deleted(&failed), envelope("Error reading cursor", StatusCode::InternalServerError));
}

#[test]
fn list_failing_in_the_store_is_an_internal_error() {
    let failed: Result<(), &str> = Err("down");
    match list(&failed) {
        ListStep::Respond(reply) => {
            assert_eq!(reply, envelope("Error reading cursor", StatusCode::InternalServerError))
        }
        ListStep::Read(_) => panic!("nothing to read"),
    }
}

#[test]
fn list_gathers_the_decoded_records_in_order() {
    let found: Result<(), ()> = Ok(());
    let mut listing = match list(&found) {
        ListStep::Read(listing) => listing,
        ListStep::Respond(reply) => panic!("unexpected reply {:?}", reply),
    };
    assert!(listing.records().is_empty());
    assert_eq!(listing.accept(Some(book(1, "a"))), None);
    assert_eq!(listing.accept(Some(book(2, "b"))), None);
    assert_eq!(listing.accept(Some(book(3, "c"))), None);
    assert_eq!(listing.records(), &vec![shown(1, "a"), shown(2, "b"), shown(3, "c")]);
    assert_eq!(listing.finish("[...]".to_string()), envelope("[...]", StatusCode::Success));
}

#[test]
fn list_answers_each_undecodable_record_and_goes_on() {
    let mut listing = Listing::new();
    assert_eq!(listing.accept(Some(book(1, "a"))), None);
    assert_eq!(
        listing.accept(None),
        Some(envelope("Deserialize failed", StatusCode::InternalServerError))
    );
    assert_eq!(listing.records(), &vec![shown(1, "a")]);
    assert_eq!(
        listing.accept(None),
        Some(envelope("Deserialize failed", StatusCode::InternalServerError))
    );
    assert_eq!(listing.accept(Some(book(2, "b"))), None);
    assert_eq!(listing.records(), &vec![shown(1, "a"), shown(2, "b")]);
}

#[test]
fn list_of_nothing_is_an_empty_success() {
    let listing = Listing::new();
    assert!(listing.records().is_empty());
    assert_eq!(listing.finish("[]".to_string()), envelope("[]", StatusCode::Success));
}

#[test]
fn list_whose_cursor_fails_is_an_internal_error() {
    let mut listing = Listing::new();
    assert_eq!(listing.accept(Some(book(1, "a"))), None);
    assert_eq!(listing.failed(), envelope("Error reading cursor", StatusCode::InternalServerError));
}

#[test]
fn created_record_is_listed_as_given() {
    let request = BookRequest {
        title: "The Hobbit".to_string(),
        author: "J. R. R. Tolkien".to_string(),
        release: -1_019_174_400_000,
    };
    let created = match add(Some(request.clone())) {
        AddStep::Create(book) => book,
        AddStep::Respond(reply) => panic!("unexpected reply {:?}", reply),
    };
    let mut listing = Listing::new();
    assert_eq!(listing.accept(Some(created.clone())), None);
    let records = listing.records();
    assert_eq!(records.len(), 1);
    assert_eq!(records[0].title, request.title);
    assert_eq!(records[0].author, request.author);
    assert_eq!(records[0].release, request.release);
    assert_eq!(delete(&records[0].id), DeleteStep::Delete(created.id));
}
