use vstd::prelude::*;

use crate::account::AccountId;

verus! {

/// One digital book: its identifier, its current owner, its descriptive
/// fields, the owner-only payload and whether it is listed for transfer.
pub struct Book {
    pub id: u32,
    pub owner: AccountId,
    pub title: String,
    pub author: String,
    pub content: String,
    pub price: u32,
    pub for_sale: bool,
}

impl Clone for Book {
    fn clone(&self) -> (r: Book)
        ensures
            r == *self,
    {
        Book {
            id: self.id,
            owner: self.owner,
            title: self.title.clone(),
            author: self.author.clone(),
            content: self.content.clone(),
            price: self.price,
            for_sale: self.for_sale,
        }
    }
}

/// The fields of a book supplied when a store is first seeded.
pub struct BookInit {
    pub title: String,
    pub author: String,
    pub content: String,
    pub price: u32,
    pub for_sale: bool,
}

impl BookInit {
    /// A seed entry holding the given fields.
    pub fn new(title: String, author: String, content: String, price: u32, for_sale: bool) -> (r:
        BookInit)
        ensures
            r == (BookInit { title, author, content, price, for_sale }),
    {
        BookInit { title, author, content, price, for_sale }
    }
}

/// Why an operation on the store was refused.
#[derive(PartialEq, Eq, Structural, Debug, Clone, Copy)]
pub enum StoreError {
    /// No book is stored under the given identifier.
    NotFound,
    /// The book is not listed for sale.
    NotForSale,
    /// The caller already owns the book it tried to buy.
    AlreadyOwned,
    /// The caller does not own the book.
    NotOwner,
    /// The identifier counter cannot hold the number of books.
    CapacityExceeded,
}

} // verus!
