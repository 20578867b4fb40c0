use crate::model::{
    CreateTransactionPayload, Transaction, TransactionType, TxError, UpdateTransactionPayload,
};
use crate::token::AuthUser;
use vstd::prelude::*;

verus! {

/// Some row of `rows` has id `id` and belongs to `owner`.
pub open spec fn has_owned(rows: Seq<Transaction>, owner: u128, id: u128) -> bool {
    exists|i: int| 0 <= i < rows.len() && #[trigger] rows[i].id == id && rows[i].user_id == owner
}

/// Row `i` is the first row of `rows` with id `id` that belongs to `owner`.
pub open spec fn first_owned(rows: Seq<Transaction>, owner: u128, id: u128, i: int) -> bool {
    &&& 0 <= i < rows.len()
    &&& rows[i].id == id && rows[i].user_id == owner
    &&& forall|j: int| 0 <= j < i ==> !(#[trigger] rows[j].id == id && rows[j].user_id == owner)
}

/// No two rows share an id.
pub open spec fn ids_unique(rows: Seq<Transaction>) -> bool {
    forall|i: int, j: int| 0 <= i < j < rows.len() ==> #[trigger] rows[i].id != #[trigger] rows[j].id
}

/// The index of the first row with id `id` that belongs to `owner`.
fn find_owned(rows: &Vec<Transaction>, owner: u128, id: u128) -> (r: Option<usize>)
    ensures
        r is None <==> !has_owned(rows@, owner, id),
        r matches Some(i) ==> first_owned(rows@, owner, id, i as int),
{
    let mut i: usize = 0;
    while i < rows.len()
        invariant
            i <= rows@.len(),
            forall|j: int| 0 <= j < i ==> !(#[trigger] rows@[j].id == id && rows@[j].user_id == owner),
        decreases rows.len() - i,
    {
        if rows[i].id == id && rows[i].user_id == owner {
            return Some(i);
        }
        i = i + 1;
    }
    None
}

/// The row a creation stores.
pub open spec fn created_row(
    id: u128,
    owner: u128,
    now: i64,
    p: CreateTransactionPayload,
) -> Transaction {
    Transaction {
        id,
        user_id: owner,
        recipient_sender: p.recipient_sender,
        category: p.category,
        transaction_date: p.transaction_date,
        amount: p.amount,
        transaction_type: p.transaction_type,
        created_at: now,
        updated_at: now,
    }
}

/// Stores a new transaction with id `id` for the caller, created and updated
/// at `now`. An id already in use is refused as a store error and the rows
/// stay as they were.
pub fn insert_transaction(
    rows: &mut Vec<Transaction>,
    auth_user: &AuthUser,
    id: u128,
    now: i64,
    payload: CreateTransactionPayload,
) -> (r: Result<Transaction, TxError>)
    ensures
        (exists|i: int| 0 <= i < old(rows)@.len() && #[trigger] old(rows)@[i].id == id) ==> r
            == Err::<Transaction, TxError>(TxError::Storage) && final(rows)@ == old(rows)@,
        !(exists|i: int| 0 <= i < old(rows)@.len() && #[trigger] old(rows)@[i].id == id) ==> r
            == Ok::<Transaction, TxError>(created_row(id, auth_user.user_id, now, payload))
            && final(rows)@ == old(rows)@.push(created_row(id, auth_user.user_id, now, payload)),
        ids_unique(old(rows)@) ==> ids_unique(final(rows)@),
{
    let mut i: usize = 0;
    while i < rows.len()
        invariant
            i <= rows@.len(),
            forall|j: int| 0 <= j < i ==> #[trigger] rows@[j].id != id,
        decreases rows.len() - i,
    {
        if rows[i].id == id {
            return Err(TxError::Storage);
        }
        i = i + 1;
    }
    assert(forall|j: int| 0 <= j < rows@.len() ==> #[trigger] rows@[j].id != id);
    let row = Transaction {
        id,
        user_id: auth_user.user_id,
        recipient_sender: payload.recipient_sender,
        category: payload.category,
        transaction_date: payload.transaction_date,
        amount: payload.amount,
        transaction_type: payload.transaction_type,
        created_at: now,
        updated_at: now,
    };
    rows.push(row.duplicate());
    Ok(row)
}

/// Relies on `uuid::Uuid::new_v4`: a random id. Nothing is known of it.
#[verifier::external_body]
fn new_transaction_id() -> u128 {
    uuid::Uuid::new_v4().as_u128()
}

/// Relies on `chrono::Utc::now`: the current time in microseconds since the
/// Unix epoch. Nothing is known of its value.
#[verifier::external_body]
fn now_micros() -> i64 {
    chrono::Utc::now().timestamp_micros()
}

/// Stores a new transaction for the caller under a fresh random id, created
/// and updated now.
pub fn create_transaction(
    rows: &mut Vec<Transaction>,
    auth_user: &AuthUser,
    payload: CreateTransactionPayload,
) -> (r: Result<Transaction, TxError>)
    ensures
        r is Err ==> r == Err::<Transaction, TxError>(TxError::Storage) && final(rows)@ == old(
            rows,
        )@,
        r matches Ok(t) ==> forall|i: int|
            0 <= i < old(rows)@.len() ==> #[trigger] old(rows)@[i].id != t.id,
        r matches Ok(t) ==> t.user_id == auth_user.user_id && t.created_at == t.updated_at
            && t.recipient_sender == payload.recipient_sender && t.category == payload.category
            && t.transaction_date == payload.transaction_date && t.amount == payload.amount
            && t.transaction_type == payload.transaction_type && final(rows)@ == old(rows)@.push(t),
{
    let id = new_transaction_id();
    let now = now_micros();
    insert_transaction(rows, auth_user, id, now, payload)
}

/// The timestamp an update records: `now`, or one past the previous update
/// where the clock has not moved forward.
pub open spec fn next_update_time(prior: i64, now: i64) -> i64 {
    if now > prior {
        now
    } else if prior < i64::MAX {
        (prior + 1) as i64
    } else {
        prior
    }
}

/// `t` with the fields that `p` sets replaced and `updated_at` set to `at`.
pub open spec fn merged_row(t: Transaction, p: UpdateTransactionPayload, at: i64) -> Transaction {
    Transaction {
        id: t.id,
        user_id: t.user_id,
        recipient_sender: match p.recipient_sender {
            Some(v) => v,
            None => t.recipient_sender,
        },
        category: match p.category {
            Some(v) => v,
            None => t.category,
        },
        transaction_date: match p.transaction_date {
            Some(v) => v,
            None => t.transaction_date,
        },
        amount: match p.amount {
            Some(v) => v,
            None => t.amount,
        },
        transaction_type: match p.transaction_type {
            Some(v) => v,
            None => t.transaction_type,
        },
        created_at: t.created_at,
        updated_at: at,
    }
}

/// Applies a partial update at time `now` to the caller's transaction
/// `transaction_id`. Where the caller has no such transaction the answer is
/// `NotFound` and nothing changes.
pub fn apply_update(
    rows: &mut Vec<Transaction>,
    auth_user: &AuthUser,
    transaction_id: u128,
    now: i64,
    payload: UpdateTransactionPayload,
) -> (r: Result<Transaction, TxError>)
    ensures
        !has_owned(old(rows)@, auth_user.user_id, transaction_id) ==> r == Err::<
            Transaction,
            TxError,
        >(TxError::NotFound) && final(rows)@ == old(rows)@,
        has_owned(old(rows)@, auth_user.user_id, transaction_id) ==> exists|i: int|
            first_owned(old(rows)@, auth_user.user_id, transaction_id, i) && r == Ok::<
                Transaction,
                TxError,
            >(
                merged_row(
                    #[trigger] old(rows)@[i],
                    payload,
                    next_update_time(old(rows)@[i].updated_at, now),
                ),
            ) && final(rows)@ == old(rows)@.update(
                i,
                merged_row(old(rows)@[i], payload, next_update_time(old(rows)@[i].updated_at, now)),
            ),
        ids_unique(old(rows)@) ==> ids_unique(final(rows)@),
{
    match find_owned(rows, auth_user.user_id, transaction_id) {
        None => Err(TxError::NotFound),
        Some(i) => {
            let t = rows[i].duplicate();
            let at: i64 = if now > t.updated_at {
                now
            } else if t.updated_at < i64::MAX {
                t.updated_at + 1
            } else {
                t.updated_at
            };
            let row = Transaction {
                id: t.id,
                user_id: t.user_id,
                recipient_sender: match payload.recipient_sender {
                    Some(v) => v,
                    None => t.recipient_sender,
                },
                category: match payload.category {
                    Some(v) => v,
                    None => t.category,
                },
                transaction_date: match payload.transaction_date {
                    Some(v) => v,
                    None => t.transaction_date,
                },
                amount: match payload.amount {
                    Some(v) => v,
                    None => t.amount,
                },
                transaction_type: match payload.transaction_type {
                    Some(v) => v,
                    None => t.transaction_type,
                },
                created_at: t.created_at,
                updated_at: at,
            };
            let ghost before = rows@;
            rows.set(i, row.duplicate());
            assert(forall|j: int| 0 <= j < rows@.len() ==> #[trigger] rows@[j].id == before[j].id);
            Ok(row)
        },
    }
}

/// Applies a partial update, stamped now, to the caller's transaction
/// `transaction_id`.
pub fn update_transaction(
    rows: &mut Vec<Transaction>,
    auth_user: &AuthUser,
    transaction_id: u128,
    payload: UpdateTransactionPayload,
) -> (r: Result<Transaction, TxError>)
    ensures
        !has_owned(old(rows)@, auth_user.user_id, transaction_id) ==> r == Err::<
            Transaction,
            TxError,
        >(TxError::NotFound) && final(rows)@ == old(rows)@,
        has_owned(old(rows)@, auth_user.user_id, transaction_id) ==> exists|i: int, now: i64|
            first_owned(old(rows)@, auth_user.user_id, transaction_id, i) && r == Ok::<
                Transaction,
                TxError,
            >(
                merged_row(
                    #[trigger] old(rows)@[i],
                    payload,
                    #[trigger] next_update_time(old(rows)@[i].updated_at, now),
                ),
            ) && final(rows)@ == old(rows)@.update(
                i,
                merged_row(old(rows)@[i], payload, next_update_time(old(rows)@[i].updated_at, now)),
            ),
        ids_unique(old(rows)@) ==> ids_unique(final(rows)@),
{
    let now = now_micros();
    apply_update(rows, auth_user, transaction_id, now, payload)
}

/// Deletes the caller's transaction `transaction_id`. Where the caller has no
/// such transaction the answer is `NotFound` and nothing changes.
pub fn delete_transaction(
    rows: &mut Vec<Transaction>,
    auth_user: &AuthUser,
    transaction_id: u128,
) -> (r: Result<(), TxError>)
    ensures
        !has_owned(old(rows)@, auth_user.user_id, transaction_id) ==> r == Err::<(), TxError>(
            TxError::NotFound,
        ) && final(rows)@ == old(rows)@,
        has_owned(old(rows)@, auth_user.user_id, transaction_id) ==> r is Ok && exists|i: int|
            first_owned(old(rows)@, auth_user.user_id, transaction_id, i) && final(rows)@ == old(
                rows,
            )@.remove(i),
        ids_unique(old(rows)@) ==> ids_unique(final(rows)@),
{
    match find_owned(rows, auth_user.user_id, transaction_id) {
        None => Err(TxError::NotFound),
        Some(i) => {
            let ghost before = rows@;
            rows.remove(i);
            proof {
                if ids_unique(before) {
                    assert forall|a: int, b: int| 0 <= a < b < rows@.len() implies #[trigger] rows@[a].id
                        != #[trigger] rows@[b].id by {
                        let a0 = if a < i {
                            a
                        } else {
                            a + 1
                        };
                        let b0 = if b < i {
                            b
                        } else {
                            b + 1
                        };
                        assert(rows@[a] == before[a0]);
                        assert(rows@[b] == before[b0]);
                        assert(before[a0].id != before[b0].id);
                    };
                }
            }
            Ok(())
        },
    }
}

/// Only the update's own fields change: a payload that sets only the category
/// leaves every other field as it was, and the update time moves strictly
/// forward while it is below the largest instant.
pub proof fn lemma_category_update_keeps_other_fields(
    t: Transaction,
    category: String,
    now: i64,
)
    requires
        t.updated_at < i64::MAX,
    ensures
        ({
            let p = UpdateTransactionPayload {
                recipient_sender: None,
                category: Some(category),
                transaction_date: None,
                amount: None,
                transaction_type: None,
            };
            let m = merged_row(t, p, next_update_time(t.updated_at, now));
            &&& m.category == category
            &&& m.id == t.id && m.user_id == t.user_id
            &&& m.recipient_sender == t.recipient_sender
            &&& m.transaction_date == t.transaction_date
            &&& m.amount == t.amount
            &&& m.transaction_type == t.transaction_type
            &&& m.created_at == t.created_at
            &&& m.updated_at > t.updated_at
        }),
{
}

/// Deleting a transaction whose id belongs only to other owners is refused
/// as `NotFound`: with ids unique, a row of owner `b` is never deleted by a
/// caller `a` other than `b`.
pub proof fn lemma_foreign_row_not_deletable(rows: Seq<Transaction>, a: u128, k: int)
    requires
        ids_unique(rows),
        0 <= k < rows.len(),
        rows[k].user_id != a,
    ensures
        !has_owned(rows, a, rows[k].id),
{
    if has_owned(rows, a, rows[k].id) {
        let i = choose|i: int| 0 <= i < rows.len() && #[trigger] rows[i].id == rows[k].id && rows[i].user_id == a;
        assert(i != k);
        if i < k {
            assert(rows[i].id != rows[k].id);
        } else {
            assert(rows[k].id != rows[i].id);
        }
    }
}

/// The category names offered to clients.
pub fn get_categories() -> (r: Vec<String>)
    ensures
        r@.map_values(|c: String| c@) =~= seq![
            "Entertainment"@,
            "Bills"@,
            "Groceries"@,
            "Dining Out"@,
            "Transportation"@,
            "Personal Care"@,
            "Education"@,
            "Lifestyle"@,
            "Shopping"@,
            "General"@,
        ],
{
    let mut v: Vec<String> = Vec::new();
    v.push(String::from_str("Entertainment"));
    v.push(String::from_str("Bills"));
    v.push(String::from_str("Groceries"));
    v.push(String::from_str("Dining Out"));
    v.push(String::from_str("Transportation"));
    v.push(String::from_str("Personal Care"));
    v.push(String::from_str("Education"));
    v.push(String::from_str("Lifestyle"));
    v.push(String::from_str("Shopping"));
    v.push(String::from_str("General"));
    v
}

} // verus!
