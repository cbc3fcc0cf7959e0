//! The rules of the durable backend: what each answer of the relational
//! engine means for the storage capability. The engine itself is driven from
//! outside this library; these functions take what it answered.

use crate::paging::{clamp_page, clamp_page_size, clamped_page_size, page_offset};
use crate::service::Golink;
use crate::storage::{StorageError, StorageResult};
use crate::text::text_starts_with;
use vstd::prelude::*;

verus! {

/// A fault as the engine reported it.
#[derive(Debug)]
pub struct EngineFault {
    /// Whether the engine turned a statement away because it would have
    /// broken a uniqueness constraint.
    pub unique_violation: bool,
    /// The engine's own account of the fault.
    pub detail: String,
}

/// The prefix by which a database location is known to be a URL already.
pub open spec fn url_scheme() -> Seq<char> {
    "sqlite://"@
}

/// The storage error for a fault that is not a duplicate.
pub open spec fn fault_error(fault: EngineFault) -> StorageError {
    StorageError::DatabaseError(fault.detail)
}

/// The limit and the offset of the range query for a page: the page size
/// brought into its range, and the number of rows in front of the page, or
/// the largest offset the engine takes if that is smaller.
pub open spec fn page_query_of(page: int, page_size: int) -> (i64, i64) {
    (
        clamped_page_size(page_size) as i64,
        if page_offset(page, page_size) > i64::MAX {
            i64::MAX
        } else {
            page_offset(page, page_size) as i64
        },
    )
}

/// Whether a database location is a URL already, and not a path in the file
/// system that has yet to be made one.
pub fn is_database_url(location: &str) -> (r: bool)
    ensures
        r == url_scheme().is_prefix_of(location@),
{
    text_starts_with(location, "sqlite://")
}

/// The URL of the database at the absolute path `path`.
pub fn database_url(path: &str) -> (r: String)
    ensures
        r@ == url_scheme() + path@,
{
    "sqlite://".to_owned().concat(path)
}

/// The limit and the offset to hand to the range query for a page.
pub fn page_query(page: usize, page_size: usize) -> (r: (i64, i64))
    ensures
        r == page_query_of(page as int, page_size as int),
        1 <= r.0 <= 100,
        0 <= r.1,
{
    let p = clamp_page(page);
    let size = clamp_page_size(page_size);
    assert(0 <= (p - 1) * size <= 100 * 0xffff_ffff_ffff_ffff) by (nonlinear_arith)
        requires
            1 <= p <= 0x1_0000_0000_0000_0000,
            1 <= size <= 100,
    ;
    let rows: u128 = (p - 1) as u128 * size as u128;
    let offset: i64 = if rows > 0x7fff_ffff_ffff_ffff {
        i64::MAX
    } else {
        rows as i64
    };
    (size as i64, offset)
}

/// What an insert means: done, a duplicate where the engine reported a
/// uniqueness violation, and a backend fault for any other failure.
pub open spec fn insert_meaning(result: Result<u64, EngineFault>) -> StorageResult<()> {
    match result {
        Ok(_) => Ok(()),
        Err(fault) => if fault.unique_violation {
            Err(StorageError::AlreadyExists)
        } else {
            Err(fault_error(fault))
        },
    }
}

/// What a statement that changes or removes the row of one key means, by
/// the number of rows it affected: done where a row was affected, not found
/// where none was.
pub open spec fn change_meaning(result: Result<u64, EngineFault>) -> StorageResult<()> {
    match result {
        Ok(rows_affected) => if rows_affected == 0 {
            Err(StorageError::NotFound)
        } else {
            Ok(())
        },
        Err(fault) => Err(fault_error(fault)),
    }
}

/// What the query for the row of one key means: the row, or not found where
/// there is none.
pub open spec fn row_meaning(result: Result<Option<Golink>, EngineFault>) -> StorageResult<Golink> {
    match result {
        Ok(Some(row)) => Ok(row),
        Ok(None) => Err(StorageError::NotFound),
        Err(fault) => Err(fault_error(fault)),
    }
}

/// What a query for rows means: the rows, in the order the engine gave them.
pub open spec fn rows_meaning(result: Result<Vec<Golink>, EngineFault>) -> StorageResult<
    Vec<Golink>,
> {
    match result {
        Ok(rows) => Ok(rows),
        Err(fault) => Err(fault_error(fault)),
    }
}

/// What the count of the rows of one key means: the key is stored where the
/// count is positive.
pub open spec fn presence_meaning(result: Result<i64, EngineFault>) -> StorageResult<bool> {
    match result {
        Ok(count) => Ok(count > 0),
        Err(fault) => Err(fault_error(fault)),
    }
}

/// What the count of all rows means: the number of stored links. A count
/// below zero counts as none.
pub open spec fn count_meaning(result: Result<i64, EngineFault>) -> StorageResult<usize> {
    match result {
        Ok(count) => Ok(
            if count < 0 {
                0usize
            } else {
                count as usize
            },
        ),
        Err(fault) => Err(fault_error(fault)),
    }
}

/// What a page is made of: the number of stored links, as counted before,
/// and the rows of the range query.
pub open spec fn page_meaning(total: usize, rows: Result<Vec<Golink>, EngineFault>) -> StorageResult<
    (Vec<Golink>, usize),
> {
    match rows {
        Ok(links) => Ok((links, total)),
        Err(fault) => Err(fault_error(fault)),
    }
}

/// Interprets the engine's answer to an insert.
pub fn insert_outcome(result: Result<u64, EngineFault>) -> (r: StorageResult<()>)
    ensures
        r == insert_meaning(result),
{
    match result {
        Ok(_) => Ok(()),
        Err(fault) => if fault.unique_violation {
            Err(StorageError::AlreadyExists)
        } else {
            Err(StorageError::DatabaseError(fault.detail))
        },
    }
}

/// Interprets the engine's answer to a statement that changes or removes the
/// row of one key, given as the number of rows affected.
pub fn change_outcome(result: Result<u64, EngineFault>) -> (r: StorageResult<()>)
    ensures
        r == change_meaning(result),
{
    match result {
        Ok(rows_affected) => if rows_affected == 0 {
            Err(StorageError::NotFound)
        } else {
            Ok(())
        },
        Err(fault) => Err(StorageError::DatabaseError(fault.detail)),
    }
}

/// Interprets the engine's answer to the query for the row of one key.
pub fn row_outcome(result: Result<Option<Golink>, EngineFault>) -> (r: StorageResult<Golink>)
    ensures
        r == row_meaning(result),
{
    match result {
        Ok(Some(row)) => Ok(row),
        Ok(None) => Err(StorageError::NotFound),
        Err(fault) => Err(StorageError::DatabaseError(fault.detail)),
    }
}

/// Interprets the engine's answer to a query for rows.
pub fn rows_outcome(result: Result<Vec<Golink>, EngineFault>) -> (r: StorageResult<Vec<Golink>>)
    ensures
        r == rows_meaning(result),
{
    match result {
        Ok(rows) => Ok(rows),
        Err(fault) => Err(StorageError::DatabaseError(fault.detail)),
    }
}

/// Interprets the engine's answer to the count of the rows of one key.
pub fn presence_outcome(result: Result<i64, EngineFault>) -> (r: StorageResult<bool>)
    ensures
        r == presence_meaning(result),
{
    match result {
        Ok(count) => Ok(count > 0),
        Err(fault) => Err(StorageError::DatabaseError(fault.detail)),
    }
}

/// Interprets the engine's answer to the count of all rows.
pub fn count_outcome(result: Result<i64, EngineFault>) -> (r: StorageResult<usize>)
    ensures
        r == count_meaning(result),
{
    match result {
        Ok(count) => Ok(
            if count < 0 {
                0
            } else {
                count as usize
            },
        ),
        Err(fault) => Err(StorageError::DatabaseError(fault.detail)),
    }
}

/// Puts a page together from the number of stored links, as counted before,
/// and the engine's answer to the range query. The engine answers the two in
/// reads of its own, so that under writes the total may disagree with the
/// rows.
pub fn page_outcome(total: usize, rows: Result<Vec<Golink>, EngineFault>) -> (r: StorageResult<
    (Vec<Golink>, usize),
>)
    ensures
        r == page_meaning(total, rows),
{
    match rows {
        Ok(links) => Ok((links, total)),
        Err(fault) => Err(StorageError::DatabaseError(fault.detail)),
    }
}

} // verus!
