//! The router: from the method and path of a request to the operation that serves it.

use crate::envelope::{Envelope, EnvelopeView, StatusCode};
use vstd::prelude::*;
use vstd::string::{StrSliceExecFns, StringExecFns};

verus! {

/// The operation that a request is routed to.
#[derive(Debug, Clone, PartialEq, Eq)]
pub enum Route {
    /// Create a book from the request's body.
    Create,
    /// List the books under the request's query options.
    List,
    /// Delete the book whose identifier the path ends in.
    Delete(String),
    /// No operation serves this request.
    NotFound,
}

/// What a [`Route`] holds.
pub enum RouteView {
    Create,
    List,
    Delete(Seq<char>),
    NotFound,
}

impl View for Route {
    type V = RouteView;

    open spec fn view(&self) -> RouteView {
        match self {
            Route::Create => RouteView::Create,
            Route::List => RouteView::List,
            Route::Delete(id) => RouteView::Delete(id@),
            Route::NotFound => RouteView::NotFound,
        }
    }
}

/// The path of the collection of books.
pub open spec fn books_path() -> Seq<char> {
    "/books"@
}

/// Whether `s` is one path segment: not empty and without a slash.
pub open spec fn is_segment(s: Seq<char>) -> bool {
    s.len() > 0 && forall|i: int| 0 <= i < s.len() ==> s[i] != '/'
}

/// Whether `path` names one book: the collection's path, a slash and one segment.
pub open spec fn is_book_path(path: Seq<char>) -> bool {
    &&& path.len() > 7
    &&& path.subrange(0, 6) == books_path()
    &&& path[6] == '/'
    &&& is_segment(path.subrange(7, path.len() as int))
}

/// The route of a request with the given method and path (the path without its query).
/// Both are matched exactly: `POST` and `GET` on the collection's path create and list;
/// `DELETE` on the path of one book deletes the book that the last segment names; nothing
/// else is served.
pub open spec fn routed(method: Seq<char>, path: Seq<char>) -> RouteView {
    if method == "POST"@ && path == books_path() {
        RouteView::Create
    } else if method == "GET"@ && path == books_path() {
        RouteView::List
    } else if method == "DELETE"@ && is_book_path(path) {
        RouteView::Delete(path.subrange(7, path.len() as int))
    } else {
        RouteView::NotFound
    }
}

/// Whether `path` names one book.
fn names_book(path: &str) -> (yes: bool)
    ensures
        yes == is_book_path(path@),
{
    let n = path.unicode_len();
    if n <= 7 {
        return false;
    }
    let prefix = path.substring_char(0, 6).to_owned();
    proof {
        reveal_strlit("/books");
    }
    if prefix != String::from_str("/books") || path.get_char(6) != '/' {
        return false;
    }
    let ghost tail = path@.subrange(7, n as int);
    let mut i: usize = 7;
    while i < n
        invariant
            7 <= i <= n,
            n == path@.len(),
            tail == path@.subrange(7, n as int),
            forall|j: int| 0 <= j < i - 7 ==> tail[j] != '/',
        decreases n - i,
    {
        if path.get_char(i) == '/' {
            assert(tail[i - 7] == '/');
            return false;
        }
        i += 1;
    }
    true
}

/// Routes a request by its method and path.
pub fn route(method: &str, path: &str) -> (route: Route)
    ensures
        route@ == routed(method@, path@),
{
    let method = method.to_owned();
    let on_collection = path.to_owned() == String::from_str("/books");
    if method == String::from_str("POST") && on_collection {
        Route::Create
    } else if method == String::from_str("GET") && on_collection {
        Route::List
    } else if method == String::from_str("DELETE") && names_book(path) {
        let n = path.unicode_len();
        Route::Delete(path.substring_char(7, n).to_owned())
    } else {
        Route::NotFound
    }
}

/// Reply to a request that no operation serves.
pub open spec fn not_found_reply() -> EnvelopeView {
    EnvelopeView { message: "not found"@, code: StatusCode::NotFound }
}

/// The reply to a request that was routed nowhere. No operation is invoked for it.
pub fn not_found() -> (envelope: Envelope)
    ensures
        envelope@ == not_found_reply(),
{
    Envelope::new("not found", StatusCode::NotFound)
}

} // verus!
