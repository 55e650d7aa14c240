//! Outcome handling for the relational store.  The store itself — schema,
//! queries, connections — is an external collaborator; what the library
//! owns is the classification of its outcomes (how many rows a statement
//! touched, which failure class a query hit) and the decisions the
//! user-and-friendship flows take on those outcomes.

use vstd::prelude::*;

verus! {

/// The errors of the storage layer.
#[derive(Debug, Clone, PartialEq, Eq)]
pub enum Error {
    /// A statement that had to touch exactly one row touched another count.
    InsertNumError,
    /// An insert collided with data already present.
    DuplicateData(String),
    /// Any other failure of the store, with its description.
    WapperError(String),
    /// A query matched no row.
    NotFound,
    /// An insert referenced a row that is not there.
    ForeignKeyViolation(String),
}

/// The class of a failed query, as the outcome handling reads it.
#[derive(Clone, Copy, Debug, PartialEq, Eq, Structural)]
pub enum QueryFailureKind {
    /// The query matched no row.
    NotFound,
    /// The statement violated a database constraint.
    Database,
    /// Anything else: connection, serialization, rollback.
    Other,
}

/// A failed query: its class and its display text.
#[derive(Debug, Clone, PartialEq, Eq)]
pub struct QueryFailure {
    pub kind: QueryFailureKind,
    pub description: String,
}

/// A user row, as the flows read it: key, name, password.  (The stored row
/// also carries timestamps no flow reads; they stay with the store.)
#[derive(Debug, Clone, PartialEq, Eq)]
pub struct QueryUser {
    pub user_id: i32,
    pub user_name: String,
    pub passwd: String,
}

/// A friendship row, as the flows read it: the two user keys.
#[derive(Debug, Clone, PartialEq, Eq)]
pub struct QueryFriendship {
    pub user_id: i32,
    pub friend_id: i32,
}

/// Classifies the outcome of an insert: one row touched is success, any
/// other count is a miscount, a constraint violation reads as duplicate
/// data, and any other failure is passed along with its description.
pub fn deal_insert_result(r: Result<usize, QueryFailure>) -> (out: Result<(), Error>)
    ensures
        match r {
            Ok(n) => out == (if n == 1 {
                Ok::<(), Error>(())
            } else {
                Err::<(), Error>(Error::InsertNumError)
            }),
            Err(f) => out == (if f.kind is Database {
                Err::<(), Error>(Error::DuplicateData(f.description))
            } else {
                Err::<(), Error>(Error::WapperError(f.description))
            }),
        },
{
    match r {
        Ok(n) => {
            if n == 1 {
                Ok(())
            } else {
                Err(Error::InsertNumError)
            }
        },
        Err(f) => {
            match f.kind {
                QueryFailureKind::Database => Err(Error::DuplicateData(f.description)),
                _ => Err(Error::WapperError(f.description)),
            }
        },
    }
}

/// Classifies the outcome of a lookup: a hit passes through, a miss is
/// `NotFound`, and any other failure is passed along with its description.
pub fn deal_query_result<T>(r: Result<T, QueryFailure>) -> (out: Result<T, Error>)
    ensures
        match r {
            Ok(v) => out == Ok::<T, Error>(v),
            Err(f) => out == (if f.kind is NotFound {
                Err::<T, Error>(Error::NotFound)
            } else {
                Err::<T, Error>(Error::WapperError(f.description))
            }),
        },
{
    match r {
        Ok(v) => Ok(v),
        Err(f) => {
            match f.kind {
                QueryFailureKind::NotFound => Err(Error::NotFound),
                _ => Err(Error::WapperError(f.description)),
            }
        },
    }
}

/// Classifies the outcome of an update: one row touched is success, any
/// other count means the target row was not there, and any other failure
/// is passed along with its description.
pub fn deal_update_result(r: Result<usize, QueryFailure>) -> (out: Result<(), Error>)
    ensures
        match r {
            Ok(n) => out == (if n == 1 {
                Ok::<(), Error>(())
            } else {
                Err::<(), Error>(Error::NotFound)
            }),
            Err(f) => out == (if f.kind is NotFound {
                Err::<(), Error>(Error::NotFound)
            } else {
                Err::<(), Error>(Error::WapperError(f.description))
            }),
        },
{
    match r {
        Ok(n) => {
            if n == 1 {
                Ok(())
            } else {
                Err(Error::NotFound)
            }
        },
        Err(f) => {
            match f.kind {
                QueryFailureKind::NotFound => Err(Error::NotFound),
                _ => Err(Error::WapperError(f.description)),
            }
        },
    }
}

/// The shared opening step of the friendship flows: both named users must
/// resolve, the first failure wins, and on success the pair of keys comes
/// back in order.
pub fn pair_user_ids(u1: Result<QueryUser, Error>, u2: Result<QueryUser, Error>) -> (r: Result<
    (i32, i32),
    Error,
>)
    ensures
        match u1 {
            Err(e) => r == Err::<(i32, i32), Error>(e),
            Ok(a) => match u2 {
                Err(e) => r == Err::<(i32, i32), Error>(e),
                Ok(b) => r == Ok::<(i32, i32), Error>((a.user_id, b.user_id)),
            },
        },
{
    match u1 {
        Err(e) => Err(e),
        Ok(a) => match u2 {
            Err(e) => Err(e),
            Ok(b) => Ok((a.user_id, b.user_id)),
        },
    }
}

/// The decision inside the two-step friendship transaction: the mirrored
/// second statement runs only when the first touched exactly one row; any
/// other count short-circuits with that count as the transaction's result.
pub fn second_step_needed(r1: &Result<usize, QueryFailure>) -> (b: bool)
    ensures
        b <==> (r1 matches Ok(n) && n == 1),
{
    match r1 {
        Ok(n) => *n == 1,
        Err(_) => false,
    }
}

/// The decision of the password change: a resolved user whose stored
/// password already equals the requested one needs no update; otherwise
/// the row to update is named by its key; a failed lookup is passed along.
pub fn change_passwd_plan(u: Result<QueryUser, Error>, pd: &String) -> (r: Result<
    Option<i32>,
    Error,
>)
    ensures
        match u {
            Err(e) => r == Err::<Option<i32>, Error>(e),
            Ok(q) => r == (if q.passwd@ == pd@ {
                Ok::<Option<i32>, Error>(None)
            } else {
                Ok::<Option<i32>, Error>(Some(q.user_id))
            }),
        },
{
    match u {
        Err(e) => Err(e),
        Ok(q) => {
            if q.passwd == *pd {
                Ok(None)
            } else {
                Ok(Some(q.user_id))
            }
        },
    }
}

} // verus!
