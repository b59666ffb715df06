//! A record store for digital books: principals create books, list them for
//! sale, take over listed books of others, and read the content of their own.

pub mod account;
pub mod book;
pub mod store;

pub use account::AccountId;
pub use book::{Book, BookInit, StoreError};
pub use store::BookStore;
