use finance_core::ledger::{
    apply_update, create_transaction, delete_transaction, get_categories, insert_transaction,
    update_transaction,
};
use finance_core::model::{
    CreateTransactionPayload, Transaction, TransactionQuery, TransactionType, TxError,
    UpdateTransactionPayload,
};
use finance_core::query::{amount_chars, get_transactions, sort_transactions, SortOrder};
use finance_core::token::AuthUser;

const OWNER_A: u128 = 0xa;
const OWNER_B: u128 = 0xb;
const DAY_2024_01_01: i64 = 1_704_067_200_000_000;
const DAY_2024_02_01: i64 = 1_706_745_600_000_000;
const DAY_2024_03_01: i64 = 1_709_251_200_000_000;

fn row(id: u128, owner: u128, name: &str, date: i64, amount: i64) -> Transaction {
    Transaction {
        id,
        user_id: owner,
        recipient_sender: name.to_string(),
        category: "General".to_string(),
        transaction_date: date,
        amount,
        transaction_type: TransactionType::Expense,
        created_at: 1,
        updated_at: 1,
    }
}

fn query(sort: Option<&str>) -> TransactionQuery {
    TransactionQuery {
        page: None,
        page_size: None,
        sort: sort.map(|s| s.to_string()),
        category: None,
        search: None,
    }
}

fn ids(v: &[Transaction]) -> Vec<u128> {
    v.iter().map(|t| t.id).collect()
}

#[test]
fn listing_never_returns_other_owners_rows() {
    let rows = vec![
        row(1, OWNER_A, "Grocer", DAY_2024_01_01, 1000),
        row(2, OWNER_B, "Grocer", DAY_2024_01_01, 1000),
        row(3, OWNER_A, "Cinema", DAY_2024_02_01, 4200),
        row(4, OWNER_B, "Cinema 42", DAY_2024_02_01, 4200),
    ];
    let a = AuthUser { user_id: OWNER_A };
    for sort in [None, Some("latest"), Some("oldest"), Some("highest"), Some("lowest"), Some("a-z"), Some("z-a"), Some("bogus")] {
        for search in [None, Some("42"), Some("grocer"), Some("")] {
            for category in [None, Some("General"), Some("Bills")] {
                for (page, size) in [(None, None), (Some(1), Some(1)), (Some(2), Some(1)), (Some(3), Some(5))] {
                    let q = TransactionQuery {
                        page,
                        page_size: size,
                        sort: sort.map(|s| s.to_string()),
                        category: category.map(|s| s.to_string()),
                        search: search.map(|s| s.to_string()),
                    };
                    let out = get_transactions(&rows, &a, &q).unwrap();
                    assert!(out.iter().all(|t| t.user_id == OWNER_A));
                }
            }
        }
    }
    let all = get_transactions(&rows, &a, &query(None)).unwrap();
    assert_eq!(ids(&all), vec![3, 1]);
}

#[test]
fn latest_and_oldest_order_by_date() {
    let rows = vec![
        row(1, OWNER_A, "Jan", DAY_2024_01_01, 100),
        row(2, OWNER_A, "Feb", DAY_2024_02_01, 100),
        row(3, OWNER_A, "Mar", DAY_2024_03_01, 100),
    ];
    let a = AuthUser { user_id: OWNER_A };
    let latest = get_transactions(&rows, &a, &query(Some("latest"))).unwrap();
    assert_eq!(ids(&latest), vec![3, 2, 1]);
    let oldest = get_transactions(&rows, &a, &query(Some("oldest"))).unwrap();
    assert_eq!(ids(&oldest), vec![1, 2, 3]);
    let default_order = get_transactions(&rows, &a, &query(None)).unwrap();
    assert_eq!(ids(&default_order), vec![3, 2, 1]);
    let unknown = get_transactions(&rows, &a, &query(Some("sideways"))).unwrap();
    assert_eq!(ids(&unknown), vec![3, 2, 1]);
}

#[test]
fn amount_and_name_orders() {
    let rows = vec![
        row(1, OWNER_A, "banana", DAY_2024_01_01, -500),
        row(2, OWNER_A, "apple", DAY_2024_01_01, 2500),
        row(3, OWNER_A, "cherry", DAY_2024_01_01, 100),
        row(4, OWNER_A, "app", DAY_2024_01_01, 100),
    ];
    let a = AuthUser { user_id: OWNER_A };
    assert_eq!(ids(&get_transactions(&rows, &a, &query(Some("highest"))).unwrap()), vec![2, 3, 4, 1]);
    assert_eq!(ids(&get_transactions(&rows, &a, &query(Some("lowest"))).unwrap()), vec![1, 3, 4, 2]);
    assert_eq!(ids(&get_transactions(&rows, &a, &query(Some("a-z"))).unwrap()), vec![4, 2, 1, 3]);
    assert_eq!(ids(&get_transactions(&rows, &a, &query(Some("z-a"))).unwrap()), vec![3, 1, 2, 4]);
    let sorted = sort_transactions(rows, SortOrder::Lowest);
    assert_eq!(ids(&sorted), vec![1, 3, 4, 2]);
}

#[test]
fn second_page_of_two_over_five_rows() {
    let rows: Vec<Transaction> = (1..=5)
        .map(|i| row(i as u128, OWNER_A, "x", DAY_2024_01_01 + i * 1_000_000, 100))
        .collect();
    let a = AuthUser { user_id: OWNER_A };
    let q = TransactionQuery {
        page: Some(2),
        page_size: Some(2),
        sort: Some("oldest".to_string()),
        category: None,
        search: None,
    };
    assert_eq!(ids(&get_transactions(&rows, &a, &q).unwrap()), vec![3, 4]);
    let q3 = TransactionQuery { page: Some(3), ..q };
    assert_eq!(ids(&get_transactions(&rows, &a, &q3).unwrap()), vec![5]);
    let q4 = TransactionQuery { page: Some(4), ..q3 };
    assert!(get_transactions(&rows, &a, &q4).unwrap().is_empty());
}

#[test]
fn zero_page_or_size_is_a_validation_error() {
    let rows = vec![row(1, OWNER_A, "x", DAY_2024_01_01, 100)];
    let a = AuthUser { user_id: OWNER_A };
    let mut q = query(None);
    q.page = Some(0);
    assert_eq!(get_transactions(&rows, &a, &q).unwrap_err(), TxError::Validation);
    q.page = Some(1);
    q.page_size = Some(0);
    assert_eq!(get_transactions(&rows, &a, &q).unwrap_err(), TxError::Validation);
}

#[test]
fn search_matches_exact_amount_or_name() {
    let rows = vec![
        row(1, OWNER_A, "Bakery", DAY_2024_01_01, 4200),
        row(2, OWNER_A, "Route 42 Diner", DAY_2024_02_01, 999),
        row(3, OWNER_A, "Hardware", DAY_2024_03_01, 42000),
        row(4, OWNER_A, "Books", DAY_2024_03_01, 4250),
    ];
    let a = AuthUser { user_id: OWNER_A };
    let mut q = query(Some("oldest"));
    q.search = Some("42".to_string());
    assert_eq!(ids(&get_transactions(&rows, &a, &q).unwrap()), vec![1, 2]);
    q.search = Some("42.5".to_string());
    assert_eq!(ids(&get_transactions(&rows, &a, &q).unwrap()), vec![4]);
    q.search = Some("DINER".to_string());
    assert_eq!(ids(&get_transactions(&rows, &a, &q).unwrap()), vec![2]);
}

#[test]
fn category_filter_is_exact() {
    let mut rows = vec![row(1, OWNER_A, "x", DAY_2024_01_01, 100), row(2, OWNER_A, "y", DAY_2024_02_01, 100)];
    rows[1].category = "Bills".to_string();
    let a = AuthUser { user_id: OWNER_A };
    let mut q = query(None);
    q.category = Some("Bills".to_string());
    assert_eq!(ids(&get_transactions(&rows, &a, &q).unwrap()), vec![2]);
    q.category = Some("bills".to_string());
    assert!(get_transactions(&rows, &a, &q).unwrap().is_empty());
}

#[test]
fn amount_text_is_shortest_decimal() {
    let text = |c: i64| amount_chars(c).into_iter().collect::<String>();
    assert_eq!(text(4200), "42");
    assert_eq!(text(42000), "420");
    assert_eq!(text(4250), "42.5");
    assert_eq!(text(4205), "42.05");
    assert_eq!(text(-50), "-0.5");
    assert_eq!(text(0), "0");
    assert_eq!(text(i64::MIN), "-92233720368547758.08");
}

fn payload(name: &str) -> CreateTransactionPayload {
    CreateTransactionPayload {
        recipient_sender: name.to_string(),
        category: "Groceries".to_string(),
        transaction_date: DAY_2024_01_01,
        amount: 1234,
        transaction_type: TransactionType::Income,
    }
}

#[test]
fn insert_stores_owned_row() {
    let mut rows = Vec::new();
    let a = AuthUser { user_id: OWNER_A };
    let t = insert_transaction(&mut rows, &a, 7, 55, payload("Shop")).unwrap();
    assert_eq!(t.id, 7);
    assert_eq!(t.user_id, OWNER_A);
    assert_eq!(t.created_at, 55);
    assert_eq!(t.updated_at, 55);
    assert_eq!(t.recipient_sender, "Shop");
    assert_eq!(rows.len(), 1);
    assert_eq!(insert_transaction(&mut rows, &a, 7, 56, payload("Again")).unwrap_err(), TxError::Storage);
    assert_eq!(rows.len(), 1);
}

#[test]
fn create_assigns_fresh_ids() {
    let mut rows = Vec::new();
    let a = AuthUser { user_id: OWNER_A };
    let t1 = create_transaction(&mut rows, &a, payload("One")).unwrap();
    let t2 = create_transaction(&mut rows, &a, payload("Two")).unwrap();
    assert_ne!(t1.id, t2.id);
    assert_eq!(t1.created_at, t1.updated_at);
    assert_eq!(rows.len(), 2);
}

#[test]
fn category_only_update_keeps_other_fields() {
    let mut rows = vec![row(1, OWNER_A, "Shop", DAY_2024_01_01, 700)];
    rows[0].updated_at = 100;
    let a = AuthUser { user_id: OWNER_A };
    let patch = UpdateTransactionPayload {
        recipient_sender: None,
        category: Some("Bills".to_string()),
        transaction_date: None,
        amount: None,
        transaction_type: None,
    };
    let t = apply_update(&mut rows, &a, 1, 50, patch).unwrap();
    assert_eq!(t.category, "Bills");
    assert_eq!(t.recipient_sender, "Shop");
    assert_eq!(t.amount, 700);
    assert_eq!(t.transaction_date, DAY_2024_01_01);
    assert_eq!(t.transaction_type, TransactionType::Expense);
    assert_eq!(t.created_at, 1);
    assert_eq!(t.updated_at, 101);
    assert_eq!(rows[0].category, "Bills");
    let patch2 = UpdateTransactionPayload {
        recipient_sender: Some("Market".to_string()),
        category: None,
        transaction_date: None,
        amount: Some(-5),
        transaction_type: None,
    };
    let t2 = update_transaction(&mut rows, &a, 1, patch2).unwrap();
    assert_eq!(t2.recipient_sender, "Market");
    assert_eq!(t2.amount, -5);
    assert_eq!(t2.category, "Bills");
    assert!(t2.updated_at > 101);
}

#[test]
fn update_of_foreign_row_is_not_found() {
    let mut rows = vec![row(1, OWNER_B, "Shop", DAY_2024_01_01, 700)];
    let a = AuthUser { user_id: OWNER_A };
    let patch = UpdateTransactionPayload {
        recipient_sender: None,
        category: Some("Bills".to_string()),
        transaction_date: None,
        amount: None,
        transaction_type: None,
    };
    assert_eq!(apply_update(&mut rows, &a, 1, 5, patch).unwrap_err(), TxError::NotFound);
    assert_eq!(rows[0].category, "General");
}

#[test]
fn delete_of_foreign_row_is_not_found_and_keeps_it() {
    let mut rows = vec![row(1, OWNER_B, "Shop", DAY_2024_01_01, 700), row(2, OWNER_A, "Mine", DAY_2024_01_01, 1)];
    let a = AuthUser { user_id: OWNER_A };
    assert_eq!(delete_transaction(&mut rows, &a, 1).unwrap_err(), TxError::NotFound);
    assert_eq!(rows.len(), 2);
    assert_eq!(rows[0].id, 1);
    assert_eq!(delete_transaction(&mut rows, &a, 2), Ok(()));
    assert_eq!(ids(&rows), vec![1]);
    assert_eq!(delete_transaction(&mut rows, &a, 2).unwrap_err(), TxError::NotFound);
}

#[test]
fn categories_are_the_fixed_list() {
    let c = get_categories();
    assert_eq!(c.len(), 10);
    assert_eq!(c[0], "Entertainment");
    assert_eq!(c[9], "General");
}
