use book_store::{AccountId, Book, BookInit, BookStore, StoreError};

fn p1() -> AccountId {
    AccountId::from_bytes([1u8; 32])
}

fn p2() -> AccountId {
    AccountId::from_bytes([2u8; 32])
}

fn seed(title: &str, author: &str, content: &str, price: u32, for_sale: bool) -> BookInit {
    BookInit::new(title.to_string(), author.to_string(), content.to_string(), price, for_sale)
}

fn seeded_store() -> BookStore {
    let names = vec![seed("A", "a1", "c1", 10, true), seed("B", "a2", "c2", 20, false)];
    BookStore::new(p1(), names).unwrap()
}

fn ids(books: &[Book]) -> Vec<u32> {
    books.iter().map(|b| b.id).collect()
}

#[test]
fn initialize_overrides_for_sale() {
    let store = seeded_store();
    assert_eq!(store.num_books(), 2);
    let owned = store.owned_books(p1());
    assert_eq!(ids(&owned), vec![0, 1]);
    for (i, b) in owned.iter().enumerate() {
        assert_eq!(b.id, i as u32);
        assert!(b.owner == p1());
        assert!(!b.for_sale);
    }
    assert_eq!(owned[0].title, "A");
    assert_eq!(owned[0].author, "a1");
    assert_eq!(owned[0].content, "c1");
    assert_eq!(owned[0].price, 10);
    assert_eq!(owned[1].title, "B");
    assert_eq!(owned[1].price, 20);
    assert!(store.owned_books(p2()).is_empty());
    assert!(store.books_for_sale(p2()).is_empty());
}

#[test]
fn initialize_empty() {
    let store = BookStore::new(p1(), Vec::new()).unwrap();
    assert_eq!(store.num_books(), 0);
    assert!(store.owned_books(p1()).is_empty());
}

#[test]
fn add_book_assigns_next_id() {
    let mut store = seeded_store();
    store.add_book(p1(), "C".to_string(), "a3".to_string(), "c3".to_string(), 5);
    assert_eq!(store.num_books(), 3);
    let owned = store.owned_books(p1());
    assert_eq!(ids(&owned), vec![0, 1, 2]);
    let b = &owned[2];
    assert_eq!(b.id, 2);
    assert!(b.owner == p1());
    assert!(!b.for_sale);
    assert_eq!(b.title, "C");
    assert_eq!(b.author, "a3");
    assert_eq!(b.content, "c3");
    assert_eq!(b.price, 5);
}

#[test]
fn add_book_by_other_caller() {
    let mut store = seeded_store();
    store.add_book(p2(), "D".to_string(), "a4".to_string(), "c4".to_string(), 7);
    assert_eq!(ids(&store.owned_books(p2())), vec![2]);
    assert_eq!(ids(&store.owned_books(p1())), vec![0, 1]);
}

#[test]
fn buy_before_sell_is_not_for_sale() {
    let mut store = seeded_store();
    assert_eq!(store.buy(p1(), 0), Err(StoreError::NotForSale));
    assert_eq!(store.buy(p2(), 0), Err(StoreError::NotForSale));
}

#[test]
fn sell_then_buy_transfers() {
    let mut store = seeded_store();
    assert_eq!(store.sell(p1(), 0), Ok(()));
    let offered = store.books_for_sale(p2());
    assert_eq!(ids(&offered), vec![0]);
    assert!(store.books_for_sale(p1()).is_empty());
    assert_eq!(store.buy(p2(), 0), Ok(()));
    let owned = store.owned_books(p2());
    assert_eq!(ids(&owned), vec![0]);
    assert!(owned[0].owner == p2());
    assert!(!owned[0].for_sale);
    assert_eq!(ids(&store.owned_books(p1())), vec![1]);
    assert!(store.books_for_sale(p1()).is_empty());
}

#[test]
fn buy_own_book_and_content_access() {
    let mut store = seeded_store();
    store.sell(p1(), 0).unwrap();
    store.buy(p2(), 0).unwrap();
    store.sell(p2(), 0).unwrap();
    assert_eq!(store.buy(p2(), 0), Err(StoreError::AlreadyOwned));
    assert_eq!(store.get_content(p1(), 0), Err(StoreError::NotOwner));
    assert_eq!(store.get_content(p2(), 0), Ok("c1".to_string()));
}

#[test]
fn already_owned_after_purchase() {
    let mut store = seeded_store();
    store.sell(p1(), 0).unwrap();
    store.buy(p2(), 0).unwrap();
    assert_eq!(store.buy(p2(), 0), Err(StoreError::NotForSale));
    assert_eq!(store.get_content(p1(), 0), Err(StoreError::NotOwner));
    assert_eq!(store.get_content(p2(), 0), Ok("c1".to_string()));
}

#[test]
fn sell_twice_is_idempotent() {
    let mut store = seeded_store();
    assert_eq!(store.sell(p1(), 1), Ok(()));
    assert_eq!(store.sell(p1(), 1), Ok(()));
    let offered = store.books_for_sale(p2());
    assert_eq!(ids(&offered), vec![1]);
    assert!(offered[0].for_sale);
    assert!(offered[0].owner == p1());
}

#[test]
fn sell_by_non_owner_refused() {
    let mut store = seeded_store();
    assert_eq!(store.sell(p2(), 0), Err(StoreError::NotOwner));
    assert!(store.books_for_sale(p1()).is_empty());
}

#[test]
fn missing_book_not_found() {
    let mut store = seeded_store();
    assert_eq!(store.buy(p2(), 5), Err(StoreError::NotFound));
    assert_eq!(store.sell(p1(), 2), Err(StoreError::NotFound));
    assert_eq!(store.get_content(p1(), 2), Err(StoreError::NotFound));
    assert_eq!(store.num_books(), 2);
}

#[test]
fn owned_and_for_sale_partition() {
    let mut store = seeded_store();
    store.add_book(p2(), "D".to_string(), "a4".to_string(), "c4".to_string(), 7);
    store.sell(p1(), 1).unwrap();
    store.sell(p2(), 2).unwrap();
    assert_eq!(ids(&store.books_for_sale(p1())), vec![2]);
    assert_eq!(ids(&store.books_for_sale(p2())), vec![1]);
    let third = AccountId::from_bytes([3u8; 32]);
    assert_eq!(ids(&store.books_for_sale(third)), vec![1, 2]);
    assert!(store.owned_books(third).is_empty());
}

#[test]
fn account_equality_by_bytes() {
    let mut a = [7u8; 32];
    let b = a;
    assert!(AccountId::from_bytes(a) == AccountId::from_bytes(b));
    a[31] = 8;
    assert!(AccountId::from_bytes(a) != AccountId::from_bytes(b));
    assert!(AccountId::from_bytes(b).clone() == AccountId::from_bytes(b));
}
