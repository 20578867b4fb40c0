use vstd::prelude::*;

verus! {

/// Whether money came in or went out.
#[derive(Clone, Copy, Debug, PartialEq, Eq, Structural)]
pub enum TransactionType {
    Income,
    Expense,
}

/// One ledger row. Identifiers are UUIDs held as `u128`, instants are
/// microseconds since the Unix epoch, and amounts are signed hundredths.
#[derive(Debug)]
pub struct Transaction {
    pub id: u128,
    pub user_id: u128,
    pub recipient_sender: String,
    pub category: String,
    pub transaction_date: i64,
    pub amount: i64,
    pub transaction_type: TransactionType,
    pub created_at: i64,
    pub updated_at: i64,
}

impl Transaction {
    /// A field-by-field copy.
    pub fn duplicate(&self) -> (r: Transaction)
        ensures
            r == *self,
    {
        Transaction {
            id: self.id,
            user_id: self.user_id,
            recipient_sender: self.recipient_sender.clone(),
            category: self.category.clone(),
            transaction_date: self.transaction_date,
            amount: self.amount,
            transaction_type: self.transaction_type,
            created_at: self.created_at,
            updated_at: self.updated_at,
        }
    }
}

/// The fields a caller supplies to create a transaction.
#[derive(Debug)]
pub struct CreateTransactionPayload {
    pub recipient_sender: String,
    pub category: String,
    pub transaction_date: i64,
    pub amount: i64,
    pub transaction_type: TransactionType,
}

/// A partial update: only the fields that are `Some` are applied.
#[derive(Debug)]
pub struct UpdateTransactionPayload {
    pub recipient_sender: Option<String>,
    pub category: Option<String>,
    pub transaction_date: Option<i64>,
    pub amount: Option<i64>,
    pub transaction_type: Option<TransactionType>,
}

/// The parameters of a listing request.
#[derive(Debug)]
pub struct TransactionQuery {
    pub page: Option<u32>,
    pub page_size: Option<u32>,
    pub sort: Option<String>,
    pub category: Option<String>,
    pub search: Option<String>,
}

/// A stored account. `password_hash` is always a credential produced by
/// `auth::hash_password`, never the plaintext.
#[derive(Debug)]
pub struct User {
    pub id: u128,
    pub name: String,
    pub email: String,
    pub password_hash: String,
    pub created_at: Option<i64>,
    pub updated_at: Option<i64>,
}

#[derive(Debug)]
pub struct SignupPayload {
    pub name: String,
    pub email: String,
    pub password: String,
}

#[derive(Debug)]
pub struct LoginPayload {
    pub email: String,
    pub password: String,
}

#[derive(Debug)]
pub struct ResetPasswordRequestPayload {
    pub email: String,
}

#[derive(Debug)]
pub struct ResetPasswordPayload {
    pub token: String,
    pub new_password: String,
}

} // verus!

verus! {

/// Outcome kinds of the transaction operations.
#[derive(Clone, Copy, Debug, PartialEq, Eq, Structural)]
pub enum TxError {
    /// A malformed or missing input.
    Validation,
    /// No row with that id belongs to the caller.
    NotFound,
    /// The store refused or failed the operation.
    Storage,
}

} // verus!
