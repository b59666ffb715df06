use vstd::prelude::*;

use std::collections::HashMap;

use crate::account::AccountId;
use crate::book::{Book, BookInit, StoreError};

verus! {

broadcast use vstd::std_specs::hash::group_hash_axioms;

/// The book seeded from `init` under identifier `id`, held by `owner` and
/// not listed for sale whatever `init` asked for.
pub open spec fn seeded_book(init: BookInit, id: u32, owner: AccountId) -> Book {
    Book {
        id,
        owner,
        title: init.title,
        author: init.author,
        content: init.content,
        price: init.price,
        for_sale: false,
    }
}

/// `b` after `buyer` has taken it over: owned by `buyer` and no longer listed.
pub open spec fn bought(b: Book, buyer: AccountId) -> Book {
    Book { owner: buyer, for_sale: false, ..b }
}

/// `b` after its owner has listed it for sale.
pub open spec fn listed(b: Book) -> Book {
    Book { for_sale: true, ..b }
}

/// The counter after one more book: one more, held at the largest `u32`.
pub open spec fn next_count(n: u32) -> u32 {
    if n == u32::MAX {
        n
    } else {
        (n + 1) as u32
    }
}

/// What a purchase of book `id` by `caller` yields on the table `books`.
pub open spec fn buy_result(books: Map<u32, Book>, caller: AccountId, id: u32) -> Result<
    (),
    StoreError,
> {
    if !books.contains_key(id) {
        Err(StoreError::NotFound)
    } else if !books[id].for_sale {
        Err(StoreError::NotForSale)
    } else if books[id].owner == caller {
        Err(StoreError::AlreadyOwned)
    } else {
        Ok(())
    }
}

/// What a request by `caller` that needs ownership of book `id` yields
/// (listing it, or reading its content).
pub open spec fn owner_check(books: Map<u32, Book>, caller: AccountId, id: u32) -> Result<
    (),
    StoreError,
> {
    if !books.contains_key(id) {
        Err(StoreError::NotFound)
    } else if books[id].owner != caller {
        Err(StoreError::NotOwner)
    } else {
        Ok(())
    }
}

/// The books among identifiers `0..n` of `books` that `keep` accepts, in
/// ascending order of identifier; identifiers with no book are passed over.
pub open spec fn select(books: Map<u32, Book>, n: nat, keep: spec_fn(Book) -> bool) -> Seq<Book>
    decreases n,
{
    if n == 0 {
        Seq::empty()
    } else {
        let prev = select(books, (n - 1) as nat, keep);
        let k = (n - 1) as u32;
        if books.contains_key(k) && keep(books[k]) {
            prev.push(books[k])
        } else {
            prev
        }
    }
}

/// Whether `caller` owns `b`.
pub open spec fn owned_by(caller: AccountId) -> spec_fn(Book) -> bool {
    |b: Book| b.owner == caller
}

/// Whether `b` is listed by someone other than `caller`.
pub open spec fn offered_to(caller: AccountId) -> spec_fn(Book) -> bool {
    |b: Book| b.for_sale && b.owner != caller
}

/// The store: a table from identifier to book, and the number of books ever
/// created, which is also the next identifier to hand out.
pub struct BookStore {
    books: HashMap<u32, Book>,
    num_books: u32,
}

impl BookStore {
    /// The table of books, by identifier.
    pub closed spec fn books(&self) -> Map<u32, Book> {
        self.books@
    }

    /// The number of books created so far.
    pub closed spec fn count(&self) -> u32 {
        self.num_books
    }

    /// A store seeded by `caller` with one book per entry of `names`, the
    /// entry at position `i` becoming book `i`. Every seeded book is held by
    /// `caller` and not listed for sale. Refused when the number of entries
    /// does not fit the identifier type.
    pub fn new(caller: AccountId, names: Vec<BookInit>) -> (r: Result<BookStore, StoreError>)
        ensures
            r is Err <==> names@.len() > u32::MAX,
            r is Err ==> r == Err::<BookStore, StoreError>(StoreError::CapacityExceeded),
            r matches Ok(s) ==> {
                &&& s.wf()
                &&& s.count() == names@.len()
                &&& forall|k: u32| #[trigger]
                    s.books().contains_key(k) <==> k < names@.len()
                &&& forall|k: u32|
                    k < names@.len() ==> #[trigger] s.books()[k] == seeded_book(
                        names@[k as int],
                        k,
                        caller,
                    )
            },
    {
        if names.len() > u32::MAX as usize {
            return Err(StoreError::CapacityExceeded);
        }
        let mut books: HashMap<u32, Book> = HashMap::new();
        let mut i: usize = 0;
        while i < names.len()
            invariant
                i <= names@.len() <= u32::MAX,
                forall|k: u32| #[trigger] books@.contains_key(k) <==> k < i,
                forall|k: u32|
                    k < i ==> #[trigger] books@[k] == seeded_book(names@[k as int], k, caller),
            decreases names@.len() - i,
        {
            let id = i as u32;
            let init = &names[i];
            let book = Book {
                id,
                owner: caller,
                title: init.title.clone(),
                author: init.author.clone(),
                content: init.content.clone(),
                price: init.price,
                for_sale: false,
            };
            books.insert(id, book);
            i = i + 1;
        }
        Ok(BookStore { books, num_books: names.len() as u32 })
    }

    /// Adds a book held by `caller`, not listed for sale, under the next
    /// identifier, and advances the counter, which stays at the largest
    /// `u32` once it has reached it.
    pub fn add_book(
        &mut self,
        caller: AccountId,
        title: String,
        author: String,
        content: String,
        price: u32,
    )
        requires
            old(self).wf(),
        ensures
            final(self).wf(),
            final(self).count() == next_count(old(self).count()),
            final(self).books() == old(self).books().insert(
                old(self).count(),
                Book {
                    id: old(self).count(),
                    owner: caller,
                    title,
                    author,
                    content,
                    price,
                    for_sale: false,
                },
            ),
    {
        let id = self.num_books;
        let book = Book { id, owner: caller, title, author, content, price, for_sale: false };
        self.books.insert(id, book);
        self.num_books = self.num_books.saturating_add(1);
    }

    /// `caller` buys book `book_id`: it must exist, be listed, and be held
    /// by someone else. It then passes to `caller` and is no longer listed;
    /// on any refusal nothing changes.
    pub fn buy(&mut self, caller: AccountId, book_id: u32) -> (r: Result<(), StoreError>)
        requires
            old(self).wf(),
        ensures
            final(self).wf(),
            r == buy_result(old(self).books(), caller, book_id),
            r is Ok <==> old(self).books().contains_key(book_id) && old(self).books()[book_id].for_sale
                && old(self).books()[book_id].owner != caller,
            r is Ok ==> final(self).books()[book_id].owner == caller
                && !final(self).books()[book_id].for_sale,
            final(self).count() == old(self).count(),
            final(self).books() == if r is Ok {
                old(self).books().insert(book_id, bought(old(self).books()[book_id], caller))
            } else {
                old(self).books()
            },
    {
        let mut book = match self.books.get(&book_id) {
            Some(b) => b.clone(),
            None => return Err(StoreError::NotFound),
        };
        if !book.for_sale {
            return Err(StoreError::NotForSale);
        }
        if book.owner == caller {
            proof {
                crate::account::lemma_account_eq(book.owner, caller);
            }
            return Err(StoreError::AlreadyOwned);
        }
        proof {
            crate::account::lemma_account_eq(book.owner, caller);
        }
        book.owner = caller;
        book.for_sale = false;
        self.books.insert(book_id, book);
        Ok(())
    }

    /// `caller` lists book `book_id` for sale: it must exist and be held by
    /// `caller`. Listing a book that is already listed changes nothing; on a
    /// refusal nothing changes.
    pub fn sell(&mut self, caller: AccountId, book_id: u32) -> (r: Result<(), StoreError>)
        requires
            old(self).wf(),
        ensures
            final(self).wf(),
            r == owner_check(old(self).books(), caller, book_id),
            r is Ok <==> old(self).books().contains_key(book_id) && old(self).books()[book_id].owner
                == caller,
            r is Ok ==> final(self).books()[book_id].for_sale && final(self).books()[book_id].owner
                == old(self).books()[book_id].owner,
            final(self).count() == old(self).count(),
            final(self).books() == if r is Ok {
                old(self).books().insert(book_id, listed(old(self).books()[book_id]))
            } else {
                old(self).books()
            },
    {
        let mut book = match self.books.get(&book_id) {
            Some(b) => b.clone(),
            None => return Err(StoreError::NotFound),
        };
        proof {
            crate::account::lemma_account_eq(book.owner, caller);
        }
        if book.owner != caller {
            return Err(StoreError::NotOwner);
        }
        book.for_sale = true;
        self.books.insert(book_id, book);
        Ok(())
    }

    /// The content of book `book_id`, for its owner alone.
    pub fn get_content(&mut self, caller: AccountId, book_id: u32) -> (r: Result<
        String,
        StoreError,
    >)
        requires
            old(self).wf(),
        ensures
            *final(self) == *old(self),
            match owner_check(old(self).books(), caller, book_id) {
                Ok(_) => r == Ok::<String, StoreError>(old(self).books()[book_id].content),
                Err(e) => r == Err::<String, StoreError>(e),
            },
            r is Ok <==> old(self).books().contains_key(book_id) && old(self).books()[book_id].owner
                == caller,
            old(self).books().contains_key(book_id) && old(self).books()[book_id].owner != caller
                ==> r == Err::<String, StoreError>(StoreError::NotOwner),
    {
        let book = match self.books.get(&book_id) {
            Some(b) => b,
            None => return Err(StoreError::NotFound),
        };
        proof {
            crate::account::lemma_account_eq(book.owner, caller);
        }
        if book.owner != caller {
            return Err(StoreError::NotOwner);
        }
        Ok(book.content.clone())
    }

    /// The books held by `caller`, in ascending order of identifier, among
    /// the identifiers below the counter.
    pub fn owned_books(&self, caller: AccountId) -> (r: Vec<Book>)
        requires
            self.wf(),
        ensures
            r@ == select(self.books(), self.count() as nat, owned_by(caller)),
    {
        let mut list: Vec<Book> = Vec::new();
        let mut i: u32 = 0;
        while i < self.num_books
            invariant
                i <= self.num_books,
                list@ == select(self.books@, i as nat, owned_by(caller)),
            decreases self.num_books - i,
        {
            if let Some(book) = self.books.get(&i) {
                proof {
                    crate::account::lemma_account_eq(book.owner, caller);
                }
                if book.owner == caller {
                    list.push(book.clone());
                }
            }
            i = i + 1;
        }
        list
    }

    /// The books listed for sale by someone other than `caller`, in
    /// ascending order of identifier, among the identifiers below the counter.
    pub fn books_for_sale(&self, caller: AccountId) -> (r: Vec<Book>)
        requires
            self.wf(),
        ensures
            r@ == select(self.books(), self.count() as nat, offered_to(caller)),
    {
        let mut list: Vec<Book> = Vec::new();
        let mut i: u32 = 0;
        while i < self.num_books
            invariant
                i <= self.num_books,
                list@ == select(self.books@, i as nat, offered_to(caller)),
            decreases self.num_books - i,
        {
            if let Some(book) = self.books.get(&i) {
                proof {
                    crate::account::lemma_account_eq(book.owner, caller);
                }
                if book.for_sale && book.owner != caller {
                    list.push(book.clone());
                }
            }
            i = i + 1;
        }
        list
    }

    /// The number of books created so far.
    pub fn num_books(&self) -> (r: u32)
        ensures
            r == self.count(),
    {
        self.num_books
    }

    /// Every book is stored under its own identifier; the identifiers below
    /// the counter are all taken, and none above it is. Once the counter is
    /// held at the largest `u32`, that identifier may be taken too.
    pub closed spec fn wf(&self) -> bool {
        &&& forall|k: u32| #[trigger] self.books@.contains_key(k) ==> self.books@[k].id == k
        &&& forall|k: u32| k < self.num_books ==> #[trigger] self.books@.contains_key(k)
        &&& forall|k: u32| #[trigger]
            self.books@.contains_key(k) ==> k < self.num_books || (k == u32::MAX
                && self.num_books == u32::MAX)
    }
}

} // verus!

verus! {

/// What `select` returns: books of the table that `keep` accepts, each at
/// an identifier below `n` and stored under it, strictly ascending, and
/// every such identifier is among them.
proof fn lemma_select_exact(books: Map<u32, Book>, n: nat, keep: spec_fn(Book) -> bool)
    requires
        n <= u32::MAX + 1,
        forall|k: u32| #[trigger] books.contains_key(k) ==> books[k].id == k,
    ensures
        ({
            let r = select(books, n, keep);
            &&& forall|i: int, j: int| 0 <= i < j < r.len() ==> r[i].id < r[j].id
            &&& forall|j: int|
                0 <= j < r.len() ==> {
                    &&& r[j].id < n
                    &&& books.contains_key(r[j].id)
                    &&& books[r[j].id] == r[j]
                    &&& keep(r[j])
                }
            &&& forall|k: u32|
                k < n && books.contains_key(k) && keep(books[k]) ==> exists|j: int|
                    0 <= j < r.len() && (#[trigger] r[j]).id == k
        }),
    decreases n,
{
    if n > 0 {
        lemma_select_exact(books, (n - 1) as nat, keep);
        let prev = select(books, (n - 1) as nat, keep);
        let k = (n - 1) as u32;
        if books.contains_key(k) && keep(books[k]) {
            let r = prev.push(books[k]);
            assert(r[prev.len() as int] == books[k]);
            assert(books[k].id == k);
            assert forall|j: int| 0 <= j < prev.len() implies r[j] == prev[j] && r[j].id < k by {}
            assert forall|i: int, j: int| 0 <= i < j < r.len() implies r[i].id < r[j].id by {
                if j < prev.len() {
                    assert(prev[i].id < prev[j].id);
                }
            }
            assert forall|m: u32| m < n && books.contains_key(m) && keep(books[m]) implies exists|
                j: int,
            | 0 <= j < r.len() && (#[trigger] r[j]).id == m by {
                if m == k {
                    assert(r[prev.len() as int].id == m);
                } else {
                    let j = choose|j: int| 0 <= j < prev.len() && (#[trigger] prev[j]).id == m;
                    assert(r[j] == prev[j]);
                }
            }
        } else {
            assert forall|m: u32| m < n && books.contains_key(m) && keep(books[m]) implies exists|
                j: int,
            | 0 <= j < prev.len() && (#[trigger] prev[j]).id == m by {
                assert(m != k);
            }
        }
    }
}

/// While the counter is below the largest `u32`, the identifiers in use are
/// exactly those below it, and each book is stored under its own identifier.
pub proof fn lemma_ids_dense(s: &BookStore)
    requires
        s.wf(),
        s.count() < u32::MAX,
    ensures
        forall|k: u32| #[trigger] s.books().contains_key(k) <==> k < s.count(),
        forall|k: u32| #[trigger] s.books().contains_key(k) ==> s.books()[k].id == k,
{
}

/// The books that `owned_books` lists for `caller` are exactly those held by
/// `caller` below the counter, each once, in ascending order of identifier.
pub proof fn lemma_owned_books_exact(s: &BookStore, caller: AccountId)
    requires
        s.wf(),
    ensures
        ({
            let r = select(s.books(), s.count() as nat, owned_by(caller));
            &&& forall|i: int, j: int| 0 <= i < j < r.len() ==> r[i].id < r[j].id
            &&& forall|j: int|
                0 <= j < r.len() ==> {
                    &&& r[j].id < s.count()
                    &&& s.books().contains_key(r[j].id)
                    &&& s.books()[r[j].id] == r[j]
                    &&& r[j].owner == caller
                }
            &&& forall|k: u32|
                k < s.count() && s.books().contains_key(k) && s.books()[k].owner == caller
                    ==> exists|j: int| 0 <= j < r.len() && (#[trigger] r[j]).id == k
        }),
{
    lemma_select_exact(s.books(), s.count() as nat, owned_by(caller));
}

/// The books that `books_for_sale` lists for `caller` are exactly those below
/// the counter that are listed and held by someone else, each once, in
/// ascending order of identifier.
pub proof fn lemma_books_for_sale_exact(s: &BookStore, caller: AccountId)
    requires
        s.wf(),
    ensures
        ({
            let r = select(s.books(), s.count() as nat, offered_to(caller));
            &&& forall|i: int, j: int| 0 <= i < j < r.len() ==> r[i].id < r[j].id
            &&& forall|j: int|
                0 <= j < r.len() ==> {
                    &&& r[j].id < s.count()
                    &&& s.books().contains_key(r[j].id)
                    &&& s.books()[r[j].id] == r[j]
                    &&& r[j].for_sale
                    &&& r[j].owner != caller
                }
            &&& forall|k: u32|
                k < s.count() && s.books().contains_key(k) && s.books()[k].for_sale
                    && s.books()[k].owner != caller ==> exists|j: int|
                    0 <= j < r.len() && (#[trigger] r[j]).id == k
        }),
{
    lemma_select_exact(s.books(), s.count() as nat, offered_to(caller));
}

} // verus!
