use books_api::envelope::{Envelope, StatusCode};
use books_api::route::{not_found, route, Route};

#[test]
fn post_on_the_collection_creates() {
    assert_eq!(route("POST", "/books"), Route::Create);
}

#[test]
fn get_on_the_collection_lists() {
    assert_eq!(route("GET", "/books"), Route::List);
}

#[test]
fn delete_on_a_book_deletes_it() {
    assert_eq!(
        route("DELETE", "/books/63ceed18f71dda7d8cf21e8e"),
        Route::Delete("63ceed18f71dda7d8cf21e8e".to_string())
    );
    assert_eq!(route("DELETE", "/books/x"), Route::Delete("x".to_string()));
    assert_eq!(route("DELETE", "/books/\u{e9}t\u{e9}"), Route::Delete("\u{e9}t\u{e9}".to_string()));
}

#[test]
fn other_methods_are_not_found() {
    for method in ["PUT", "PATCH", "HEAD", "get", "Post", "", "DELETE "] {
        assert_eq!(route(method, "/books"), Route::NotFound);
        assert_eq!(route(method, "/books/63ceed18f71dda7d8cf21e8e"), Route::NotFound);
    }
}

#[test]
fn methods_on_the_wrong_path_are_not_found() {
    assert_eq!(route("DELETE", "/books"), Route::NotFound);
    assert_eq!(route("DELETE", "/books/"), Route::NotFound);
    assert_eq!(route("DELETE", "/books/a/b"), Route::NotFound);
    assert_eq!(route("DELETE", "/books/a/"), Route::NotFound);
    assert_eq!(route("DELETE", "/bookss/a"), Route::NotFound);
    assert_eq!(route("DELETE", "/book/abc"), Route::NotFound);
    assert_eq!(route("GET", "/books/63ceed18f71dda7d8cf21e8e"), Route::NotFound);
    assert_eq!(route("POST", "/books/63ceed18f71dda7d8cf21e8e"), Route::NotFound);
    assert_eq!(route("GET", "/books/"), Route::NotFound);
    assert_eq!(route("GET", "books"), Route::NotFound);
    assert_eq!(route("GET", "/"), Route::NotFound);
    assert_eq!(route("GET", ""), Route::NotFound);
    assert_eq!(route("POST", "/Books"), Route::NotFound);
    assert_eq!(route("GET", "/books?sort=asc"), Route::NotFound);
}

#[test]
fn unrouted_request_gets_the_not_found_reply() {
    assert_eq!(
        not_found(),
        Envelope { message: "not found".to_string(), code: StatusCode::NotFound }
    );
    assert_eq!(StatusCode::NotFound.as_u16(), 404);
}
