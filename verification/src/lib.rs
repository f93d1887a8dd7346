//! The request-handling core of a small book catalogue service, with its behaviour stated
//! in contracts and proved.
//!
//! The service answers three requests: create a book, list the books, delete a book. The
//! modules follow a request through the service:
//!
//! - [`pool`]: the admission rule of the worker pool that serves the connections;
//! - [`route`]: from method and path to the operation that serves a request;
//! - [`book_handler`]: the steps of each operation, from decoded input to reply;
//! - [`book_service`]: the requests that the operations make to the document store;
//! - [`book`], [`record_id`], [`list_options`], [`envelope`]: the data that they work on;
//! - [`document`], [`entries`]: the store's document type and its mathematical model.
//!
//! Nothing here reads a connection or calls the store: the caller does, and hands over what
//! it got. Identifiers and documents are those of the `bson` crate; what is assumed of that
//! crate is said where it is called, in `record_id`, `book` and `document`.

pub mod book;
pub mod book_handler;
pub mod book_service;
pub mod document;
pub mod entries;
pub mod envelope;
pub mod list_options;
pub mod pool;
pub mod record_id;
pub mod route;
