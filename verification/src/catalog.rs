//! The catalog's transaction: tables of rows, read and written through `redb`.

use vstd::prelude::*;

use std::ops::Bound;

use redb::{ReadableTable, TableDefinition};

use crate::error::{backend, MetadataError};
use crate::keys::{key_before, within};

verus! {

/// A write transaction of `redb`.
#[verifier::external_type_specification]
#[verifier::external_body]
pub struct ExWriteTransaction(redb::WriteTransaction);

/// A read transaction of `redb`.
#[verifier::external_type_specification]
#[verifier::external_body]
pub struct ExReadTransaction(redb::ReadTransaction);

/// The rows a write transaction holds in tables from bytes to bytes, by table
/// name and key.
pub uninterp spec fn written_rows(write: redb::WriteTransaction) -> Map<
    (Seq<char>, Seq<u8>),
    Seq<u8>,
>;

/// The rows a write transaction holds in tables from text to bytes.
pub uninterp spec fn written_names(write: redb::WriteTransaction) -> Map<
    (Seq<char>, Seq<char>),
    Seq<u8>,
>;

/// The rows a write transaction holds in tables from text to counts.
pub uninterp spec fn written_counters(write: redb::WriteTransaction) -> Map<
    (Seq<char>, Seq<char>),
    u64,
>;

/// The rows a write transaction holds in tables from text to instants.
pub uninterp spec fn written_clocks(write: redb::WriteTransaction) -> Map<
    (Seq<char>, Seq<char>),
    i64,
>;

/// The rows a write transaction holds in tables from bytes to flags.
pub uninterp spec fn written_flags(write: redb::WriteTransaction) -> Map<
    (Seq<char>, Seq<u8>),
    u8,
>;

/// The rows a read transaction sees in tables from bytes to bytes.
pub uninterp spec fn seen_rows(read: redb::ReadTransaction) -> Map<
    (Seq<char>, Seq<u8>),
    Seq<u8>,
>;

/// The rows a read transaction sees in tables from text to counts.
pub uninterp spec fn seen_counters(read: redb::ReadTransaction) -> Map<
    (Seq<char>, Seq<char>),
    u64,
>;

/// Everything a transaction holds.
#[verifier::ext_equal]
pub struct CatalogView {
    /// Tables from bytes to bytes.
    pub rows: Map<(Seq<char>, Seq<u8>), Seq<u8>>,
    /// Tables from text to bytes.
    pub names: Map<(Seq<char>, Seq<char>), Seq<u8>>,
    /// Tables from text to counts.
    pub counters: Map<(Seq<char>, Seq<char>), u64>,
    /// Tables from text to instants.
    pub clocks: Map<(Seq<char>, Seq<char>), i64>,
    /// Tables from bytes to flags.
    pub flags: Map<(Seq<char>, Seq<u8>), u8>,
}

/// Everything a write transaction holds.
pub open spec fn contents(write: redb::WriteTransaction) -> CatalogView {
    CatalogView {
        rows: written_rows(write),
        names: written_names(write),
        counters: written_counters(write),
        clocks: written_clocks(write),
        flags: written_flags(write),
    }
}

/// The stage at which the storage engine failed.
#[derive(Debug, Clone, Copy, PartialEq, Eq, Structural)]
pub enum Stage {
    /// Opening the table.
    Open,
    /// Reading or writing a row, or starting a scan.
    Access,
    /// Reading on in a scan.
    Entry,
}

/// A failure of the storage engine.
#[derive(Debug, Clone, PartialEq, Eq)]
pub struct Fault {
    /// When it failed.
    pub stage: Stage,
    /// What it reported.
    pub reason: String,
}

/// Calls `WriteTransaction::open_table` of `redb` and lets the table go again.
///
/// No row of any table changes. Of the outcome nothing is claimed but the stage
/// of a failure.
#[verifier::external_body]
fn open_rows(write: &redb::WriteTransaction, table: &'static str) -> (opened: Result<(), Fault>)
    requires
        table@.len() > 0,
    ensures
        opened matches Err(fault) ==> fault.stage == Stage::Open,
{
    let opened = write.open_table(TableDefinition::<&[u8], &[u8]>::new(table)).map(|_| ());
    opened.map_err(|error| Fault { stage: Stage::Open, reason: error.to_string() })
}

/// Calls `Table::insert` of `redb` on the named table.
///
/// On success the row is there, replacing one with the same key, and no other
/// row of any table has changed. Nothing is claimed after a failure.
#[verifier::external_body]
fn insert_row(
    write: &mut redb::WriteTransaction,
    table: &'static str,
    key: &[u8],
    value: &[u8],
) -> (done: Result<(), Fault>)
    requires
        table@.len() > 0,
    ensures
        done is Ok ==> contents(*final(write)) == (CatalogView {
            rows: written_rows(*old(write)).insert((table@, key@), value@),
            ..contents(*old(write))
        }),
        done matches Err(fault) ==> fault.stage != Stage::Entry,
{
    let mut rows = write.open_table(TableDefinition::<&[u8], &[u8]>::new(table)).map_err(
        |error| Fault { stage: Stage::Open, reason: error.to_string() },
    )?;
    let done = rows.insert(key, value).map(|_| ());
    done.map_err(|error| Fault { stage: Stage::Access, reason: error.to_string() })
}

/// Calls `Table::remove` of `redb` on the named table.
///
/// On success the row is gone, what it held is returned, and no other row of
/// any table has changed. Nothing is claimed after a failure.
#[verifier::external_body]
fn remove_row(write: &mut redb::WriteTransaction, table: &'static str, key: &[u8]) -> (removed:
    Result<Option<Vec<u8>>, Fault>)
    requires
        table@.len() > 0,
    ensures
        removed matches Ok(value) ==> {
            let before = written_rows(*old(write));
            &&& contents(*final(write)) == (CatalogView {
                rows: before.remove((table@, key@)),
                ..contents(*old(write))
            })
            &&& bytes_view(value) == lookup(before, (table@, key@))
        },
        removed matches Err(fault) ==> fault.stage != Stage::Entry,
{
    let mut rows = write.open_table(TableDefinition::<&[u8], &[u8]>::new(table)).map_err(
        |error| Fault { stage: Stage::Open, reason: error.to_string() },
    )?;
    let removed = rows.remove(key).map(
        |value| value.map(|found| found.value().to_vec()),
    );
    removed.map_err(|error| Fault { stage: Stage::Access, reason: error.to_string() })
}

/// Calls `ReadableTable::get` of `redb` on the named table of a write
/// transaction.
///
/// On success it is what the row holds, or nothing where there is no row.
#[verifier::external_body]
fn get_row(write: &redb::WriteTransaction, table: &'static str, key: &[u8]) -> (found: Result<
    Option<Vec<u8>>,
    Fault,
>)
    requires
        table@.len() > 0,
    ensures
        found matches Ok(value) ==> bytes_view(value) == lookup(
            written_rows(*write),
            (table@, key@),
        ),
        found matches Err(fault) ==> fault.stage != Stage::Entry,
{
    let rows = write.open_table(TableDefinition::<&[u8], &[u8]>::new(table)).map_err(
        |error| Fault { stage: Stage::Open, reason: error.to_string() },
    )?;
    let found = rows.get(key).map(
        |value| value.map(|found| found.value().to_vec()),
    );
    found.map_err(|error| Fault { stage: Stage::Access, reason: error.to_string() })
}

/// Calls `ReadableTable::range` of `redb` on the named table and reads its
/// first entry.
///
/// On success it is the row with the least key of the range, in the order of
/// the keys' bytes, or nothing where the range has no row.
#[verifier::external_body]
fn first_row(
    write: &redb::WriteTransaction,
    table: &'static str,
    start: &[u8],
    end: Option<&[u8]>,
) -> (first: Result<Option<(Vec<u8>, Vec<u8>)>, Fault>)
    requires
        table@.len() > 0,
    ensures
        first matches Ok(entry) ==> is_first_row(
            written_rows(*write),
            table@,
            start@,
            bound_view(end),
            entry,
        ),
{
    let rows = write.open_table(TableDefinition::<&[u8], &[u8]>::new(table)).map_err(
        |error| Fault { stage: Stage::Open, reason: error.to_string() },
    )?;
    let mut scan = rows.range::<&[u8]>(
        (Bound::Included(start), end.map_or(Bound::Unbounded, Bound::Excluded)),
    ).map_err(
        |error| Fault { stage: Stage::Access, reason: error.to_string() },
    )?;
    scan.next().transpose().map(
        |entry| entry.map(|(k, v)| (k.value().to_vec(), v.value().to_vec())),
    ).map_err(|error| Fault { stage: Stage::Entry, reason: error.to_string() })
}

/// Calls `ReadableTable::range` of `redb` on the named table and reads it on
/// until it ends.
///
/// Once the scan has started, it is the rows of the range as they were read, in
/// the order of the keys' bytes and without a gap. An entry that cannot be read
/// ends the scan; where there is none, every row of the range is there.
#[verifier::external_body]
fn range_rows(
    write: &redb::WriteTransaction,
    table: &'static str,
    start: &[u8],
    end: Option<&[u8]>,
) -> (listed: Result<Vec<Result<(Vec<u8>, Vec<u8>), Fault>>, Fault>)
    requires
        table@.len() > 0,
    ensures
        listed matches Ok(entries) ==> is_row_scan(
            written_rows(*write),
            table@,
            start@,
            bound_view(end),
            entries@,
        ),
        listed matches Err(fault) ==> fault.stage != Stage::Entry,
{
    let rows = write.open_table(TableDefinition::<&[u8], &[u8]>::new(table)).map_err(
        |error| Fault { stage: Stage::Open, reason: error.to_string() },
    )?;
    let scan = rows.range::<&[u8]>(
        (Bound::Included(start), end.map_or(Bound::Unbounded, Bound::Excluded)),
    ).map_err(
        |error| Fault { stage: Stage::Access, reason: error.to_string() },
    )?;
    let read = scan.map(|entry| entry.map(|(k, v)| (k.value().to_vec(), v.value().to_vec())));
    Ok(read.map(|entry| entry.map_err(
        |error| Fault { stage: Stage::Entry, reason: error.to_string() },
    )).collect())
}

/// Calls `Table::insert` of `redb` on the named table from text to bytes.
///
/// On success the row is there, replacing one with the same key, and no other
/// row of any table has changed. Nothing is claimed after a failure.
#[verifier::external_body]
fn insert_name(
    write: &mut redb::WriteTransaction,
    table: &'static str,
    name: &str,
    value: &[u8],
) -> (done: Result<(), Fault>)
    requires
        table@.len() > 0,
    ensures
        done is Ok ==> contents(*final(write)) == (CatalogView {
            names: written_names(*old(write)).insert((table@, name@), value@),
            ..contents(*old(write))
        }),
        done matches Err(fault) ==> fault.stage != Stage::Entry,
{
    let mut rows = write.open_table(TableDefinition::<&str, &[u8]>::new(table)).map_err(
        |error| Fault { stage: Stage::Open, reason: error.to_string() },
    )?;
    let done = rows.insert(name, value).map(|_| ());
    done.map_err(|error| Fault { stage: Stage::Access, reason: error.to_string() })
}

/// Calls `Table::insert` of `redb` on the named table from bytes to flags.
///
/// On success the row is there, replacing one with the same key, and no other
/// row of any table has changed. Nothing is claimed after a failure.
#[verifier::external_body]
fn insert_flag(
    write: &mut redb::WriteTransaction,
    table: &'static str,
    key: &[u8],
    flag: u8,
) -> (done: Result<(), Fault>)
    requires
        table@.len() > 0,
    ensures
        done is Ok ==> contents(*final(write)) == (CatalogView {
            flags: written_flags(*old(write)).insert((table@, key@), flag),
            ..contents(*old(write))
        }),
        done matches Err(fault) ==> fault.stage != Stage::Entry,
{
    let mut rows = write.open_table(TableDefinition::<&[u8], u8>::new(table)).map_err(
        |error| Fault { stage: Stage::Open, reason: error.to_string() },
    )?;
    let done = rows.insert(key, flag).map(|_| ());
    done.map_err(|error| Fault { stage: Stage::Access, reason: error.to_string() })
}

/// Calls `ReadableTable::get` of `redb` on the named table from text to counts.
///
/// On success it is what the row holds, or nothing where there is no row.
#[verifier::external_body]
fn get_counter(write: &redb::WriteTransaction, table: &'static str, name: &str) -> (found: Result<
    Option<u64>,
    Fault,
>)
    requires
        table@.len() > 0,
    ensures
        found matches Ok(value) ==> value == lookup(written_counters(*write), (table@, name@)),
        found matches Err(fault) ==> fault.stage != Stage::Entry,
{
    let rows = write.open_table(TableDefinition::<&str, u64>::new(table)).map_err(
        |error| Fault { stage: Stage::Open, reason: error.to_string() },
    )?;
    let found = rows.get(name).map(
        |value| value.map(|found| found.value()),
    );
    found.map_err(|error| Fault { stage: Stage::Access, reason: error.to_string() })
}

/// Calls `Table::insert` of `redb` on the named table from text to counts.
///
/// On success the row is there, replacing one with the same key, and no other
/// row of any table has changed. Nothing is claimed after a failure.
#[verifier::external_body]
fn insert_counter(
    write: &mut redb::WriteTransaction,
    table: &'static str,
    name: &str,
    value: u64,
) -> (done: Result<(), Fault>)
    requires
        table@.len() > 0,
    ensures
        done is Ok ==> contents(*final(write)) == (CatalogView {
            counters: written_counters(*old(write)).insert((table@, name@), value),
            ..contents(*old(write))
        }),
        done matches Err(fault) ==> fault.stage != Stage::Entry,
{
    let mut rows = write.open_table(TableDefinition::<&str, u64>::new(table)).map_err(
        |error| Fault { stage: Stage::Open, reason: error.to_string() },
    )?;
    let done = rows.insert(name, value).map(|_| ());
    done.map_err(|error| Fault { stage: Stage::Access, reason: error.to_string() })
}

/// Calls `ReadableTable::get` of `redb` on the named table from text to
/// instants.
///
/// On success it is what the row holds, or nothing where there is no row.
#[verifier::external_body]
fn get_clock(write: &redb::WriteTransaction, table: &'static str, name: &str) -> (found: Result<
    Option<i64>,
    Fault,
>)
    requires
        table@.len() > 0,
    ensures
        found matches Ok(value) ==> value == lookup(written_clocks(*write), (table@, name@)),
        found matches Err(fault) ==> fault.stage != Stage::Entry,
{
    let rows = write.open_table(TableDefinition::<&str, i64>::new(table)).map_err(
        |error| Fault { stage: Stage::Open, reason: error.to_string() },
    )?;
    let found = rows.get(name).map(
        |value| value.map(|found| found.value()),
    );
    found.map_err(|error| Fault { stage: Stage::Access, reason: error.to_string() })
}

/// Calls `Table::insert` of `redb` on the named table from text to instants.
///
/// On success the row is there, replacing one with the same key, and no other
/// row of any table has changed. Nothing is claimed after a failure.
#[verifier::external_body]
fn insert_clock(
    write: &mut redb::WriteTransaction,
    table: &'static str,
    name: &str,
    value: i64,
) -> (done: Result<(), Fault>)
    requires
        table@.len() > 0,
    ensures
        done is Ok ==> contents(*final(write)) == (CatalogView {
            clocks: written_clocks(*old(write)).insert((table@, name@), value),
            ..contents(*old(write))
        }),
        done matches Err(fault) ==> fault.stage != Stage::Entry,
{
    let mut rows = write.open_table(TableDefinition::<&str, i64>::new(table)).map_err(
        |error| Fault { stage: Stage::Open, reason: error.to_string() },
    )?;
    let done = rows.insert(name, value).map(|_| ());
    done.map_err(|error| Fault { stage: Stage::Access, reason: error.to_string() })
}

/// Calls `ReadableTable::get` of `redb` on the named table of a read
/// transaction.
///
/// On success it is what the row holds, or nothing where there is no row. A
/// table that was never written is a failure to open it.
#[verifier::external_body]
fn get_seen_row(read: &redb::ReadTransaction, table: &'static str, key: &[u8]) -> (found: Result<
    Option<Vec<u8>>,
    Fault,
>)
    requires
        table@.len() > 0,
    ensures
        found matches Ok(value) ==> bytes_view(value) == lookup(seen_rows(*read), (table@, key@)),
        found matches Err(fault) ==> fault.stage != Stage::Entry,
{
    let rows = read.open_table(TableDefinition::<&[u8], &[u8]>::new(table)).map_err(
        |error| Fault { stage: Stage::Open, reason: error.to_string() },
    )?;
    let found = rows.get(key).map(
        |value| value.map(|found| found.value().to_vec()),
    );
    found.map_err(|error| Fault { stage: Stage::Access, reason: error.to_string() })
}

/// Calls `ReadableTable::get` of `redb` on the named table from text to counts of
/// a read transaction.
///
/// On success it is what the row holds, or nothing where there is no row. A
/// table that was never written is a failure to open it.
#[verifier::external_body]
fn get_seen_counter(read: &redb::ReadTransaction, table: &'static str, name: &str) -> (found:
    Result<Option<u64>, Fault>)
    requires
        table@.len() > 0,
    ensures
        found matches Ok(value) ==> value == lookup(seen_counters(*read), (table@, name@)),
        found matches Err(fault) ==> fault.stage != Stage::Entry,
{
    let rows = read.open_table(TableDefinition::<&str, u64>::new(table)).map_err(
        |error| Fault { stage: Stage::Open, reason: error.to_string() },
    )?;
    let found = rows.get(name).map(
        |value| value.map(|found| found.value()),
    );
    found.map_err(|error| Fault { stage: Stage::Access, reason: error.to_string() })
}

/// What a map holds under a key.
pub open spec fn lookup<K, V>(map: Map<K, V>, key: K) -> Option<V> {
    if map.contains_key(key) {
        Some(map[key])
    } else {
        None
    }
}

/// The contents of an optional row.
pub open spec fn bytes_view(row: Option<Vec<u8>>) -> Option<Seq<u8>> {
    match row {
        Some(bytes) => Some(bytes@),
        None => None,
    }
}

/// The contents of an optional bound.
pub open spec fn bound_view(end: Option<&[u8]>) -> Option<Seq<u8>> {
    match end {
        Some(bound) => Some(bound@),
        None => None,
    }
}

/// Whether a key of the table lies in the range.
pub open spec fn row_within(
    rows: Map<(Seq<char>, Seq<u8>), Seq<u8>>,
    table: Seq<char>,
    start: Seq<u8>,
    end: Option<Seq<u8>>,
    key: Seq<u8>,
) -> bool {
    rows.contains_key((table, key)) && within(key, start, end)
}

/// Whether `entry` is the row of the range with the least key.
pub open spec fn is_first_row(
    rows: Map<(Seq<char>, Seq<u8>), Seq<u8>>,
    table: Seq<char>,
    start: Seq<u8>,
    end: Option<Seq<u8>>,
    entry: Option<(Vec<u8>, Vec<u8>)>,
) -> bool {
    match entry {
        None => forall|key: Seq<u8>| !#[trigger] row_within(rows, table, start, end, key),
        Some((first, value)) => {
            &&& row_within(rows, table, start, end, first@)
            &&& value@ == rows[(table, first@)]
            &&& forall|key: Seq<u8>| #[trigger]
                row_within(rows, table, start, end, key) ==> !key_before(key, first@)
        },
    }
}

/// Whether `entries` are what a scan of the range can read: its rows, in order
/// and from the first one on, up to the end of the range or to one entry that
/// cannot be read.
pub open spec fn is_row_scan(
    rows: Map<(Seq<char>, Seq<u8>), Seq<u8>>,
    table: Seq<char>,
    start: Seq<u8>,
    end: Option<Seq<u8>>,
    entries: Seq<Result<(Vec<u8>, Vec<u8>), Fault>>,
) -> bool {
    &&& forall|i: int|
        0 <= i < entries.len() ==> match #[trigger] entries[i] {
            Ok((key, value)) => row_within(rows, table, start, end, key@) && value@ == rows[(
                table,
                key@,
            )],
            Err(fault) => i == entries.len() - 1 && fault.stage == Stage::Entry,
        }
    &&& forall|i: int, j: int|
        0 <= i < j < entries.len() && entries[i] is Ok && entries[j] is Ok ==> key_before(
            (#[trigger] entries[i])->Ok_0.0@,
            (#[trigger] entries[j])->Ok_0.0@,
        )
    &&& forall|key: Seq<u8>| #[trigger]
        row_within(rows, table, start, end, key) ==> scanned(entries, key) || (entries.len() > 0
            && entries.last() is Err && comes_after(entries, key))
}

/// Whether a scan has read this key.
pub open spec fn scanned(
    entries: Seq<Result<(Vec<u8>, Vec<u8>), Fault>>,
    key: Seq<u8>,
) -> bool {
    exists|i: int|
        0 <= i < entries.len() && (#[trigger] entries[i]) is Ok && entries[i]->Ok_0.0@ == key
}

/// Whether this key comes after every key that a scan has read.
pub open spec fn comes_after(
    entries: Seq<Result<(Vec<u8>, Vec<u8>), Fault>>,
    key: Seq<u8>,
) -> bool {
    forall|i: int|
        0 <= i < entries.len() && (#[trigger] entries[i]) is Ok ==> key_before(
            entries[i]->Ok_0.0@,
            key,
        )
}

/// A write transaction over the catalog's tables, held by one owner.
pub struct Transaction {
    write: redb::WriteTransaction,
}

impl View for Transaction {
    type V = CatalogView;

    closed spec fn view(&self) -> CatalogView {
        contents(self.write)
    }
}

/// The names under which a table operation reports its failures.
#[derive(Clone, Copy)]
pub(crate) struct Operation {
    /// Opening the table.
    pub(crate) open: &'static str,
    /// Reading or writing a row, or starting a scan.
    pub(crate) access: &'static str,
    /// Reading on in a scan.
    pub(crate) entry: &'static str,
}

impl Operation {
    pub(crate) open spec fn reports(self, error: MetadataError) -> bool {
        error.during(self.open@) || error.during(self.access@)
    }

    pub(crate) fn report(self, fault: Fault) -> (error: MetadataError)
        ensures
            error == (MetadataError::Database {
                operation: match fault.stage {
                    Stage::Open => self.open,
                    Stage::Access => self.access,
                    Stage::Entry => self.entry,
                },
                reason: fault.reason,
            }),
    {
        match fault.stage {
            Stage::Open => backend(self.open, fault.reason),
            Stage::Access => backend(self.access, fault.reason),
            Stage::Entry => backend(self.entry, fault.reason),
        }
    }
}

/// An operation on single rows.
pub(crate) fn rows(open: &'static str, access: &'static str) -> (operation: Operation)
    ensures
        operation == (Operation { open, access, entry: access }),
{
    Operation { open, access, entry: access }
}

/// An operation that scans a range.
pub(crate) fn scan(open: &'static str, access: &'static str, entry: &'static str) -> (operation:
    Operation)
    ensures
        operation == (Operation { open, access, entry }),
{
    Operation { open, access, entry }
}

/// Makes a call on a table that takes nothing else, and hands on what it gave.
fn ask_table<W, R, F: Fn(&W, &'static str) -> R>(call: F, on: &W, table: &'static str) -> (answer:
    R)
    requires
        call_requires(call, (on, table)),
    ensures
        call_ensures(call, (on, table), answer),
{
    call(on, table)
}

/// Makes a call that reads under a key, and hands on what it gave.
fn ask<W, K, R, F: Fn(&W, &'static str, K) -> R>(
    call: F,
    on: &W,
    table: &'static str,
    key: K,
) -> (answer: R)
    requires
        call_requires(call, (on, table, key)),
    ensures
        call_ensures(call, (on, table, key), answer),
{
    call(on, table, key)
}

/// Makes a call that reads a range, and hands on what it gave.
fn ask_range<W, S, E, R, F: Fn(&W, &'static str, S, E) -> R>(
    call: F,
    on: &W,
    table: &'static str,
    start: S,
    end: E,
) -> (answer: R)
    requires
        call_requires(call, (on, table, start, end)),
    ensures
        call_ensures(call, (on, table, start, end), answer),
{
    call(on, table, start, end)
}

/// Makes a call that drops what is under a key, and hands on what it gave.
fn tell<W, K, R, F: Fn(&mut W, &'static str, K) -> R>(
    call: F,
    on: &mut W,
    table: &'static str,
    key: K,
) -> (answer: R)
    requires
        forall|any: &mut W| call_requires(call, (any, table, key)),
    ensures
        exists|was: &mut W|
            {
                &&& *was == *old(on)
                &&& *final(was) == *final(on)
                &&& #[trigger] call_ensures(call, (was, table, key), answer)
            },
{
    call(on, table, key)
}

/// Makes a call that writes under a key, and hands on what it gave.
fn tell_value<W, K, V, R, F: Fn(&mut W, &'static str, K, V) -> R>(
    call: F,
    on: &mut W,
    table: &'static str,
    key: K,
    value: V,
) -> (answer: R)
    requires
        forall|any: &mut W| call_requires(call, (any, table, key, value)),
    ensures
        exists|was: &mut W|
            {
                &&& *was == *old(on)
                &&& *final(was) == *final(on)
                &&& #[trigger] call_ensures(call, (was, table, key, value), answer)
            },
{
    call(on, table, key, value)
}

/// Whether an error reports this fault, under the name of the stage it came at.
pub open spec fn reports_fault(
    open: Seq<char>,
    access: Seq<char>,
    entry: Seq<char>,
    fault: Fault,
    error: MetadataError,
) -> bool {
    &&& error matches MetadataError::Database { operation, reason }
    &&& reason == fault.reason
    &&& operation@ == match fault.stage {
        Stage::Open => open,
        Stage::Access => access,
        Stage::Entry => entry,
    }
}

impl Transaction {
    /// What the storage engine can answer to `open_rows` on this transaction.
    pub closed spec fn open_gives(
        &self,
        table: Seq<char>,
        answer: Result<(), Fault>,
    ) -> bool {
        exists|t: &'static str|
            {
                &&& t@ == table
                &&& #[trigger] call_ensures(open_rows, (&self.write, t), answer)
            }
    }

    /// Whether the storage engine can fail opening a table like this.
    pub open spec fn open_fails(
        &self,
        table: Seq<char>,
        open: Seq<char>,
        access: Seq<char>,
        error: MetadataError,
    ) -> bool {
        exists|fault: Fault| #[trigger]
            self.open_gives(table, Err(fault)) && reports_fault(
                open,
                access,
                access,
                fault,
                error,
            )
    }

    /// What the storage engine can answer to `get_row` on this transaction.
    pub closed spec fn get_gives(
        &self,
        table: Seq<char>,
        key: Seq<u8>,
        answer: Result<Option<Vec<u8>>, Fault>,
    ) -> bool {
        exists|t: &'static str, k: &[u8]|
            {
                &&& t@ == table
                &&& k@ == key
                &&& #[trigger] call_ensures(get_row, (&self.write, t, k), answer)
            }
    }

    /// Whether the storage engine can fail reading a row like this.
    pub open spec fn get_fails(
        &self,
        table: Seq<char>,
        key: Seq<u8>,
        open: Seq<char>,
        access: Seq<char>,
        error: MetadataError,
    ) -> bool {
        exists|fault: Fault| #[trigger]
            self.get_gives(table, key, Err(fault)) && reports_fault(
                open,
                access,
                access,
                fault,
                error,
            )
    }

    /// What the storage engine can answer to `first_row` on this transaction.
    pub closed spec fn first_gives(
        &self,
        table: Seq<char>,
        start: Seq<u8>,
        end: Option<Seq<u8>>,
        answer: Result<Option<(Vec<u8>, Vec<u8>)>, Fault>,
    ) -> bool {
        exists|t: &'static str, s: &[u8], e: Option<&[u8]>|
            {
                &&& t@ == table
                &&& s@ == start
                &&& bound_view(e) == end
                &&& #[trigger] call_ensures(first_row, (&self.write, t, s, e), answer)
            }
    }

    /// What the storage engine can answer to `range_rows` on this transaction.
    pub closed spec fn range_gives(
        &self,
        table: Seq<char>,
        start: Seq<u8>,
        end: Option<Seq<u8>>,
        answer: Result<Vec<Result<(Vec<u8>, Vec<u8>), Fault>>, Fault>,
    ) -> bool {
        exists|t: &'static str, s: &[u8], e: Option<&[u8]>|
            {
                &&& t@ == table
                &&& s@ == start
                &&& bound_view(e) == end
                &&& #[trigger] call_ensures(range_rows, (&self.write, t, s, e), answer)
            }
    }

    /// Whether the storage engine can fail starting a scan like this.
    pub open spec fn range_fails(
        &self,
        table: Seq<char>,
        start: Seq<u8>,
        end: Option<Seq<u8>>,
        open: Seq<char>,
        access: Seq<char>,
        error: MetadataError,
    ) -> bool {
        exists|fault: Fault| #[trigger]
            self.range_gives(table, start, end, Err(fault)) && reports_fault(
                open,
                access,
                access,
                fault,
                error,
            )
    }

    /// What the storage engine can answer to `insert_row` on this transaction.
    pub closed spec fn insert_gives(
        &self,
        table: Seq<char>,
        key: Seq<u8>,
        value: Seq<u8>,
        answer: Result<(), Fault>,
    ) -> bool {
        exists|on: &mut redb::WriteTransaction, t: &'static str, k: &[u8], v: &[u8]|
            {
                &&& *on == self.write
                &&& t@ == table
                &&& k@ == key
                &&& v@ == value
                &&& #[trigger] call_ensures(insert_row, (on, t, k, v), answer)
            }
    }

    /// Whether the storage engine can fail writing a row like this.
    pub open spec fn insert_fails(
        &self,
        table: Seq<char>,
        key: Seq<u8>,
        value: Seq<u8>,
        open: Seq<char>,
        access: Seq<char>,
        error: MetadataError,
    ) -> bool {
        exists|fault: Fault| #[trigger]
            self.insert_gives(table, key, value, Err(fault)) && reports_fault(
                open,
                access,
                access,
                fault,
                error,
            )
    }

    /// What the storage engine can answer to `remove_row` on this transaction.
    pub closed spec fn remove_gives(
        &self,
        table: Seq<char>,
        key: Seq<u8>,
        answer: Result<Option<Vec<u8>>, Fault>,
    ) -> bool {
        exists|on: &mut redb::WriteTransaction, t: &'static str, k: &[u8]|
            {
                &&& *on == self.write
                &&& t@ == table
                &&& k@ == key
                &&& #[trigger] call_ensures(remove_row, (on, t, k), answer)
            }
    }

    /// Whether the storage engine can fail dropping a row like this.
    pub open spec fn remove_fails(
        &self,
        table: Seq<char>,
        key: Seq<u8>,
        open: Seq<char>,
        access: Seq<char>,
        error: MetadataError,
    ) -> bool {
        exists|fault: Fault| #[trigger]
            self.remove_gives(table, key, Err(fault)) && reports_fault(
                open,
                access,
                access,
                fault,
                error,
            )
    }

    /// What the storage engine can answer to `insert_name` on this transaction.
    pub closed spec fn insert_name_gives(
        &self,
        table: Seq<char>,
        name: Seq<char>,
        value: Seq<u8>,
        answer: Result<(), Fault>,
    ) -> bool {
        exists|on: &mut redb::WriteTransaction, t: &'static str, n: &str, v: &[u8]|
            {
                &&& *on == self.write
                &&& t@ == table
                &&& n@ == name
                &&& v@ == value
                &&& #[trigger] call_ensures(insert_name, (on, t, n, v), answer)
            }
    }

    /// Whether the storage engine can fail writing an entry by name like this.
    pub open spec fn insert_name_fails(
        &self,
        table: Seq<char>,
        name: Seq<char>,
        value: Seq<u8>,
        open: Seq<char>,
        access: Seq<char>,
        error: MetadataError,
    ) -> bool {
        exists|fault: Fault| #[trigger]
            self.insert_name_gives(table, name, value, Err(fault)) && reports_fault(
                open,
                access,
                access,
                fault,
                error,
            )
    }

    /// What the storage engine can answer to `insert_flag` on this transaction.
    pub closed spec fn insert_flag_gives(
        &self,
        table: Seq<char>,
        key: Seq<u8>,
        value: u8,
        answer: Result<(), Fault>,
    ) -> bool {
        exists|on: &mut redb::WriteTransaction, t: &'static str, k: &[u8], v: u8|
            {
                &&& *on == self.write
                &&& t@ == table
                &&& k@ == key
                &&& v == value
                &&& #[trigger] call_ensures(insert_flag, (on, t, k, v), answer)
            }
    }

    /// Whether the storage engine can fail writing a flag like this.
    pub open spec fn insert_flag_fails(
        &self,
        table: Seq<char>,
        key: Seq<u8>,
        value: u8,
        open: Seq<char>,
        access: Seq<char>,
        error: MetadataError,
    ) -> bool {
        exists|fault: Fault| #[trigger]
            self.insert_flag_gives(table, key, value, Err(fault)) && reports_fault(
                open,
                access,
                access,
                fault,
                error,
            )
    }

    /// What the storage engine can answer to `get_counter` on this transaction.
    pub closed spec fn counter_gives(
        &self,
        table: Seq<char>,
        name: Seq<char>,
        answer: Result<Option<u64>, Fault>,
    ) -> bool {
        exists|t: &'static str, n: &str|
            {
                &&& t@ == table
                &&& n@ == name
                &&& #[trigger] call_ensures(get_counter, (&self.write, t, n), answer)
            }
    }

    /// Whether the storage engine can fail reading a total like this.
    pub open spec fn counter_fails(
        &self,
        table: Seq<char>,
        name: Seq<char>,
        open: Seq<char>,
        access: Seq<char>,
        error: MetadataError,
    ) -> bool {
        exists|fault: Fault| #[trigger]
            self.counter_gives(table, name, Err(fault)) && reports_fault(
                open,
                access,
                access,
                fault,
                error,
            )
    }

    /// What the storage engine can answer to `insert_counter` on this transaction.
    pub closed spec fn insert_counter_gives(
        &self,
        table: Seq<char>,
        name: Seq<char>,
        value: u64,
        answer: Result<(), Fault>,
    ) -> bool {
        exists|on: &mut redb::WriteTransaction, t: &'static str, n: &str, v: u64|
            {
                &&& *on == self.write
                &&& t@ == table
                &&& n@ == name
                &&& v == value
                &&& #[trigger] call_ensures(insert_counter, (on, t, n, v), answer)
            }
    }

    /// Whether the storage engine can fail writing a total like this.
    pub open spec fn insert_counter_fails(
        &self,
        table: Seq<char>,
        name: Seq<char>,
        value: u64,
        open: Seq<char>,
        access: Seq<char>,
        error: MetadataError,
    ) -> bool {
        exists|fault: Fault| #[trigger]
            self.insert_counter_gives(table, name, value, Err(fault)) && reports_fault(
                open,
                access,
                access,
                fault,
                error,
            )
    }

    /// What the storage engine can answer to `get_clock` on this transaction.
    pub closed spec fn clock_gives(
        &self,
        table: Seq<char>,
        name: Seq<char>,
        answer: Result<Option<i64>, Fault>,
    ) -> bool {
        exists|t: &'static str, n: &str|
            {
                &&& t@ == table
                &&& n@ == name
                &&& #[trigger] call_ensures(get_clock, (&self.write, t, n), answer)
            }
    }

    /// Whether the storage engine can fail reading the clock's mark like this.
    pub open spec fn clock_fails(
        &self,
        table: Seq<char>,
        name: Seq<char>,
        open: Seq<char>,
        access: Seq<char>,
        error: MetadataError,
    ) -> bool {
        exists|fault: Fault| #[trigger]
            self.clock_gives(table, name, Err(fault)) && reports_fault(
                open,
                access,
                access,
                fault,
                error,
            )
    }

    /// What the storage engine can answer to `insert_clock` on this transaction.
    pub closed spec fn insert_clock_gives(
        &self,
        table: Seq<char>,
        name: Seq<char>,
        value: i64,
        answer: Result<(), Fault>,
    ) -> bool {
        exists|on: &mut redb::WriteTransaction, t: &'static str, n: &str, v: i64|
            {
                &&& *on == self.write
                &&& t@ == table
                &&& n@ == name
                &&& v == value
                &&& #[trigger] call_ensures(insert_clock, (on, t, n, v), answer)
            }
    }

    /// Whether the storage engine can fail writing the clock's mark like this.
    pub open spec fn insert_clock_fails(
        &self,
        table: Seq<char>,
        name: Seq<char>,
        value: i64,
        open: Seq<char>,
        access: Seq<char>,
        error: MetadataError,
    ) -> bool {
        exists|fault: Fault| #[trigger]
            self.insert_clock_gives(table, name, value, Err(fault)) && reports_fault(
                open,
                access,
                access,
                fault,
                error,
            )
    }
}

impl Transaction {
    /// Takes over a write transaction.
    pub fn begin(write: redb::WriteTransaction) -> (tx: Transaction)
        ensures
            tx@ == contents(write),
    {
        Transaction { write }
    }

    /// Hands the write transaction back, to be committed or aborted.
    pub fn into_inner(self) -> (write: redb::WriteTransaction)
        ensures
            contents(write) == self@,
    {
        self.write
    }

    pub(crate) fn open(&self, table: &'static str, operation: Operation) -> (opened: Result<
        (),
        MetadataError,
    >)
        requires
            table@.len() > 0,
        ensures
            opened matches Err(error) ==> error.during(operation.open@),
            opened matches Err(error) ==> self.open_fails(
                table@,
                operation.open@,
                operation.access@,
                error,
            ),
    {
        match ask_table(open_rows, &self.write, table) {
            Ok(()) => Ok(()),
            Err(fault) => {
                assert(self.open_gives(table@, Err(fault)));
                Err(operation.report(fault))
            },
        }
    }

    pub(crate) fn insert(
        &mut self,
        table: &'static str,
        key: &[u8],
        value: &[u8],
        operation: Operation,
    ) -> (done: Result<(), MetadataError>)
        requires
            table@.len() > 0,
        ensures
            done is Ok ==> final(self)@ == (CatalogView {
                rows: old(self)@.rows.insert((table@, key@), value@),
                ..old(self)@
            }),
            done matches Err(error) ==> operation.reports(error),
            done matches Err(error) ==> old(self).insert_fails(
                table@,
                key@,
                value@,
                operation.open@,
                operation.access@,
                error,
            ),
    {
        match tell_value(insert_row, &mut self.write, table, key, value) {
            Ok(()) => Ok(()),
            Err(fault) => {
                assert(old(self).insert_gives(table@, key@, value@, Err(fault)));
                Err(operation.report(fault))
            },
        }
    }

    pub(crate) fn remove(&mut self, table: &'static str, key: &[u8], operation: Operation) -> (
    removed: Result<Option<Vec<u8>>, MetadataError>)
        requires
            table@.len() > 0,
        ensures
            removed matches Ok(value) ==> {
                &&& final(self)@ == (CatalogView {
                    rows: old(self)@.rows.remove((table@, key@)),
                    ..old(self)@
                })
                &&& bytes_view(value) == lookup(old(self)@.rows, (table@, key@))
            },
            removed matches Err(error) ==> operation.reports(error),
            removed matches Err(error) ==> old(self).remove_fails(
                table@,
                key@,
                operation.open@,
                operation.access@,
                error,
            ),
    {
        match tell(remove_row, &mut self.write, table, key) {
            Ok(value) => Ok(value),
            Err(fault) => {
                assert(old(self).remove_gives(table@, key@, Err(fault)));
                Err(operation.report(fault))
            },
        }
    }

    pub(crate) fn get(&self, table: &'static str, key: &[u8], operation: Operation) -> (found:
        Result<Option<Vec<u8>>, MetadataError>)
        requires
            table@.len() > 0,
        ensures
            found matches Ok(value) ==> bytes_view(value) == lookup(
                self@.rows,
                (table@, key@),
            ),
            found matches Err(error) ==> operation.reports(error),
            found matches Err(error) ==> self.get_fails(
                table@,
                key@,
                operation.open@,
                operation.access@,
                error,
            ),
    {
        match ask(get_row, &self.write, table, key) {
            Ok(value) => Ok(value),
            Err(fault) => {
                assert(self.get_gives(table@, key@, Err(fault)));
                Err(operation.report(fault))
            },
        }
    }

    pub(crate) fn first(&self, table: &'static str, start: &[u8], end: Option<&[u8]>) -> (
    first: Result<Option<(Vec<u8>, Vec<u8>)>, Fault>)
        requires
            table@.len() > 0,
        ensures
            first matches Ok(entry) ==> is_first_row(
                self@.rows,
                table@,
                start@,
                bound_view(end),
                entry,
            ),
            self.first_gives(table@, start@, bound_view(end), first),
    {
        ask_range(first_row, &self.write, table, start, end)
    }

    pub(crate) fn range(
        &self,
        table: &'static str,
        start: &[u8],
        end: Option<&[u8]>,
        operation: Operation,
    ) -> (listed: Result<Vec<Result<(Vec<u8>, Vec<u8>), Fault>>, MetadataError>)
        requires
            table@.len() > 0,
        ensures
            listed matches Ok(entries) ==> is_row_scan(
                self@.rows,
                table@,
                start@,
                bound_view(end),
                entries@,
            ),
            listed matches Err(error) ==> operation.reports(error),
            listed matches Ok(entries) ==> self.range_gives(
                table@,
                start@,
                bound_view(end),
                Ok(entries),
            ),
            listed matches Err(error) ==> self.range_fails(
                table@,
                start@,
                bound_view(end),
                operation.open@,
                operation.access@,
                error,
            ),
    {
        match ask_range(range_rows, &self.write, table, start, end) {
            Ok(entries) => Ok(entries),
            Err(fault) => {
                assert(self.range_gives(table@, start@, bound_view(end), Err(fault)));
                Err(operation.report(fault))
            },
        }
    }

    pub(crate) fn insert_name(
        &mut self,
        table: &'static str,
        name: &str,
        value: &[u8],
        operation: Operation,
    ) -> (done: Result<(), MetadataError>)
        requires
            table@.len() > 0,
        ensures
            done is Ok ==> final(self)@ == (CatalogView {
                names: old(self)@.names.insert((table@, name@), value@),
                ..old(self)@
            }),
            done matches Err(error) ==> operation.reports(error),
            done matches Err(error) ==> old(self).insert_name_fails(
                table@,
                name@,
                value@,
                operation.open@,
                operation.access@,
                error,
            ),
    {
        match tell_value(insert_name, &mut self.write, table, name, value) {
            Ok(()) => Ok(()),
            Err(fault) => {
                assert(old(self).insert_name_gives(table@, name@, value@, Err(fault)));
                Err(operation.report(fault))
            },
        }
    }

    pub(crate) fn insert_flag(
        &mut self,
        table: &'static str,
        key: &[u8],
        flag: u8,
        operation: Operation,
    ) -> (done: Result<(), MetadataError>)
        requires
            table@.len() > 0,
        ensures
            done is Ok ==> final(self)@ == (CatalogView {
                flags: old(self)@.flags.insert((table@, key@), flag),
                ..old(self)@
            }),
            done matches Err(error) ==> operation.reports(error),
            done matches Err(error) ==> old(self).insert_flag_fails(
                table@,
                key@,
                flag,
                operation.open@,
                operation.access@,
                error,
            ),
    {
        match tell_value(insert_flag, &mut self.write, table, key, flag) {
            Ok(()) => Ok(()),
            Err(fault) => {
                assert(old(self).insert_flag_gives(table@, key@, flag, Err(fault)));
                Err(operation.report(fault))
            },
        }
    }

    pub(crate) fn counter(&self, table: &'static str, name: &str, operation: Operation) -> (found:
        Result<Option<u64>, MetadataError>)
        requires
            table@.len() > 0,
        ensures
            found matches Ok(value) ==> value == lookup(self@.counters, (table@, name@)),
            found matches Err(error) ==> operation.reports(error),
            found matches Err(error) ==> self.counter_fails(
                table@,
                name@,
                operation.open@,
                operation.access@,
                error,
            ),
    {
        match ask(get_counter, &self.write, table, name) {
            Ok(value) => Ok(value),
            Err(fault) => {
                assert(self.counter_gives(table@, name@, Err(fault)));
                Err(operation.report(fault))
            },
        }
    }

    pub(crate) fn insert_counter(
        &mut self,
        table: &'static str,
        name: &str,
        value: u64,
        operation: Operation,
    ) -> (done: Result<(), MetadataError>)
        requires
            table@.len() > 0,
        ensures
            done is Ok ==> final(self)@ == (CatalogView {
                counters: old(self)@.counters.insert((table@, name@), value),
                ..old(self)@
            }),
            done matches Err(error) ==> operation.reports(error),
            done matches Err(error) ==> old(self).insert_counter_fails(
                table@,
                name@,
                value,
                operation.open@,
                operation.access@,
                error,
            ),
    {
        match tell_value(insert_counter, &mut self.write, table, name, value) {
            Ok(()) => Ok(()),
            Err(fault) => {
                assert(old(self).insert_counter_gives(table@, name@, value, Err(fault)));
                Err(operation.report(fault))
            },
        }
    }

    pub(crate) fn clock(&self, table: &'static str, name: &str, operation: Operation) -> (found:
        Result<Option<i64>, MetadataError>)
        requires
            table@.len() > 0,
        ensures
            found matches Ok(value) ==> value == lookup(self@.clocks, (table@, name@)),
            found matches Err(error) ==> operation.reports(error),
            found matches Err(error) ==> self.clock_fails(
                table@,
                name@,
                operation.open@,
                operation.access@,
                error,
            ),
    {
        match ask(get_clock, &self.write, table, name) {
            Ok(value) => Ok(value),
            Err(fault) => {
                assert(self.clock_gives(table@, name@, Err(fault)));
                Err(operation.report(fault))
            },
        }
    }

    pub(crate) fn insert_clock(
        &mut self,
        table: &'static str,
        name: &str,
        value: i64,
        operation: Operation,
    ) -> (done: Result<(), MetadataError>)
        requires
            table@.len() > 0,
        ensures
            done is Ok ==> final(self)@ == (CatalogView {
                clocks: old(self)@.clocks.insert((table@, name@), value),
                ..old(self)@
            }),
            done matches Err(error) ==> operation.reports(error),
            done matches Err(error) ==> old(self).insert_clock_fails(
                table@,
                name@,
                value,
                operation.open@,
                operation.access@,
                error,
            ),
    {
        match tell_value(insert_clock, &mut self.write, table, name, value) {
            Ok(()) => Ok(()),
            Err(fault) => {
                assert(old(self).insert_clock_gives(table@, name@, value, Err(fault)));
                Err(operation.report(fault))
            },
        }
    }
}

/// What a read transaction sees.
pub struct SnapshotView {
    /// Tables from bytes to bytes.
    pub rows: Map<(Seq<char>, Seq<u8>), Seq<u8>>,
    /// Tables from text to counts.
    pub counters: Map<(Seq<char>, Seq<char>), u64>,
}

impl SnapshotView {
    /// What a row holds.
    pub open spec fn row(self, table: Seq<char>, key: Seq<u8>) -> Option<Seq<u8>> {
        lookup(self.rows, (table, key))
    }
}

/// A read transaction over the catalog's tables: a fixed view of them.
pub struct Snapshot {
    read: redb::ReadTransaction,
}

impl View for Snapshot {
    type V = SnapshotView;

    closed spec fn view(&self) -> SnapshotView {
        SnapshotView { rows: seen_rows(self.read), counters: seen_counters(self.read) }
    }
}

impl Snapshot {
    /// What the storage engine can answer to `get_seen_row` on this snapshot.
    pub closed spec fn get_gives(
        &self,
        table: Seq<char>,
        key: Seq<u8>,
        answer: Result<Option<Vec<u8>>, Fault>,
    ) -> bool {
        exists|t: &'static str, k: &[u8]|
            {
                &&& t@ == table
                &&& k@ == key
                &&& #[trigger] call_ensures(get_seen_row, (&self.read, t, k), answer)
            }
    }

    /// Whether the storage engine can fail reading a row like this.
    pub open spec fn get_fails(
        &self,
        table: Seq<char>,
        key: Seq<u8>,
        open: Seq<char>,
        access: Seq<char>,
        error: MetadataError,
    ) -> bool {
        exists|fault: Fault| #[trigger]
            self.get_gives(table, key, Err(fault)) && reports_fault(
                open,
                access,
                access,
                fault,
                error,
            )
    }

    /// What the storage engine can answer to `get_seen_counter` on this snapshot.
    pub closed spec fn counter_gives(
        &self,
        table: Seq<char>,
        name: Seq<char>,
        answer: Result<Option<u64>, Fault>,
    ) -> bool {
        exists|t: &'static str, n: &str|
            {
                &&& t@ == table
                &&& n@ == name
                &&& #[trigger] call_ensures(get_seen_counter, (&self.read, t, n), answer)
            }
    }

    /// Whether the storage engine can fail reading a total like this.
    pub open spec fn counter_fails(
        &self,
        table: Seq<char>,
        name: Seq<char>,
        open: Seq<char>,
        access: Seq<char>,
        error: MetadataError,
    ) -> bool {
        exists|fault: Fault| #[trigger]
            self.counter_gives(table, name, Err(fault)) && reports_fault(
                open,
                access,
                access,
                fault,
                error,
            )
    }
}

impl Snapshot {
    /// Takes over a read transaction.
    pub fn begin(read: redb::ReadTransaction) -> (snapshot: Snapshot)
        ensures
            snapshot@ == (SnapshotView { rows: seen_rows(read), counters: seen_counters(read) }),
    {
        Snapshot { read }
    }

    pub(crate) fn get(&self, table: &'static str, key: &[u8], operation: Operation) -> (found:
        Result<Option<Vec<u8>>, MetadataError>)
        requires
            table@.len() > 0,
        ensures
            found matches Ok(value) ==> bytes_view(value) == self@.row(table@, key@),
            found matches Err(error) ==> operation.reports(error),
            found matches Err(error) ==> self.get_fails(
                table@,
                key@,
                operation.open@,
                operation.access@,
                error,
            ),
    {
        match ask(get_seen_row, &self.read, table, key) {
            Ok(value) => Ok(value),
            Err(fault) => {
                assert(self.get_gives(table@, key@, Err(fault)));
                Err(operation.report(fault))
            },
        }
    }

    pub(crate) fn counter(&self, table: &'static str, name: &str, operation: Operation) -> (found:
        Result<Option<u64>, MetadataError>)
        requires
            table@.len() > 0,
        ensures
            found matches Ok(value) ==> value == lookup(self@.counters, (table@, name@)),
            found matches Err(error) ==> operation.reports(error),
            found matches Err(error) ==> self.counter_fails(
                table@,
                name@,
                operation.open@,
                operation.access@,
                error,
            ),
    {
        match ask(get_seen_counter, &self.read, table, name) {
            Ok(value) => Ok(value),
            Err(fault) => {
                assert(self.counter_gives(table@, name@, Err(fault)));
                Err(operation.report(fault))
            },
        }
    }
}

/// What is said of `open_rows` is what a call of it on these arguments can give.
proof fn law_open_is_answered_by_a_call(
    tx: Transaction,
    table: Seq<char>,
    answer: Result<(), Fault>,
)
    requires
        tx.open_gives(table, answer),
    ensures
        exists|t: &'static str|
            {
                &&& t@ == table
                &&& #[trigger] call_ensures(open_rows, (&tx.write, t), answer)
            },
{
}

/// What is said of `get_row` is what a call of it on these arguments can give.
proof fn law_get_is_answered_by_a_call(
    tx: Transaction,
    table: Seq<char>,
    key: Seq<u8>,
    answer: Result<Option<Vec<u8>>, Fault>,
)
    requires
        tx.get_gives(table, key, answer),
    ensures
        exists|t: &'static str, k: &[u8]|
            {
                &&& t@ == table
                &&& k@ == key
                &&& #[trigger] call_ensures(get_row, (&tx.write, t, k), answer)
            },
{
}

/// What is said of `first_row` is what a call of it on these arguments can give.
proof fn law_first_is_answered_by_a_call(
    tx: Transaction,
    table: Seq<char>,
    start: Seq<u8>,
    end: Option<Seq<u8>>,
    answer: Result<Option<(Vec<u8>, Vec<u8>)>, Fault>,
)
    requires
        tx.first_gives(table, start, end, answer),
    ensures
        exists|t: &'static str, s: &[u8], e: Option<&[u8]>|
            {
                &&& t@ == table
                &&& s@ == start
                &&& bound_view(e) == end
                &&& #[trigger] call_ensures(first_row, (&tx.write, t, s, e), answer)
            },
{
}

/// What is said of `range_rows` is what a call of it on these arguments can give.
proof fn law_range_is_answered_by_a_call(
    tx: Transaction,
    table: Seq<char>,
    start: Seq<u8>,
    end: Option<Seq<u8>>,
    answer: Result<Vec<Result<(Vec<u8>, Vec<u8>), Fault>>, Fault>,
)
    requires
        tx.range_gives(table, start, end, answer),
    ensures
        exists|t: &'static str, s: &[u8], e: Option<&[u8]>|
            {
                &&& t@ == table
                &&& s@ == start
                &&& bound_view(e) == end
                &&& #[trigger] call_ensures(range_rows, (&tx.write, t, s, e), answer)
            },
{
}

/// What is said of `get_counter` is what a call of it on these arguments can give.
proof fn law_counter_is_answered_by_a_call(
    tx: Transaction,
    table: Seq<char>,
    name: Seq<char>,
    answer: Result<Option<u64>, Fault>,
)
    requires
        tx.counter_gives(table, name, answer),
    ensures
        exists|t: &'static str, n: &str|
            {
                &&& t@ == table
                &&& n@ == name
                &&& #[trigger] call_ensures(get_counter, (&tx.write, t, n), answer)
            },
{
}

/// What is said of `get_clock` is what a call of it on these arguments can give.
proof fn law_clock_is_answered_by_a_call(
    tx: Transaction,
    table: Seq<char>,
    name: Seq<char>,
    answer: Result<Option<i64>, Fault>,
)
    requires
        tx.clock_gives(table, name, answer),
    ensures
        exists|t: &'static str, n: &str|
            {
                &&& t@ == table
                &&& n@ == name
                &&& #[trigger] call_ensures(get_clock, (&tx.write, t, n), answer)
            },
{
}

/// What is said of `insert_row` is what a call of it on these arguments can give.
proof fn law_insert_is_answered_by_a_call(
    tx: Transaction,
    table: Seq<char>,
    key: Seq<u8>,
    value: Seq<u8>,
    answer: Result<(), Fault>,
)
    requires
        tx.insert_gives(table, key, value, answer),
    ensures
        exists|on: &mut redb::WriteTransaction, t: &'static str, k: &[u8], v: &[u8]|
            {
                &&& *on == tx.write
                &&& t@ == table
                &&& k@ == key
                &&& v@ == value
                &&& #[trigger] call_ensures(insert_row, (on, t, k, v), answer)
            },
{
}

/// What is said of `remove_row` is what a call of it on these arguments can give.
proof fn law_remove_is_answered_by_a_call(
    tx: Transaction,
    table: Seq<char>,
    key: Seq<u8>,
    answer: Result<Option<Vec<u8>>, Fault>,
)
    requires
        tx.remove_gives(table, key, answer),
    ensures
        exists|on: &mut redb::WriteTransaction, t: &'static str, k: &[u8]|
            {
                &&& *on == tx.write
                &&& t@ == table
                &&& k@ == key
                &&& #[trigger] call_ensures(remove_row, (on, t, k), answer)
            },
{
}

/// What is said of `insert_name` is what a call of it on these arguments can give.
proof fn law_insert_name_is_answered_by_a_call(
    tx: Transaction,
    table: Seq<char>,
    name: Seq<char>,
    value: Seq<u8>,
    answer: Result<(), Fault>,
)
    requires
        tx.insert_name_gives(table, name, value, answer),
    ensures
        exists|on: &mut redb::WriteTransaction, t: &'static str, n: &str, v: &[u8]|
            {
                &&& *on == tx.write
                &&& t@ == table
                &&& n@ == name
                &&& v@ == value
                &&& #[trigger] call_ensures(insert_name, (on, t, n, v), answer)
            },
{
}

/// What is said of `insert_flag` is what a call of it on these arguments can give.
proof fn law_insert_flag_is_answered_by_a_call(
    tx: Transaction,
    table: Seq<char>,
    key: Seq<u8>,
    value: u8,
    answer: Result<(), Fault>,
)
    requires
        tx.insert_flag_gives(table, key, value, answer),
    ensures
        exists|on: &mut redb::WriteTransaction, t: &'static str, k: &[u8], v: u8|
            {
                &&& *on == tx.write
                &&& t@ == table
                &&& k@ == key
                &&& v == value
                &&& #[trigger] call_ensures(insert_flag, (on, t, k, v), answer)
            },
{
}

/// What is said of `insert_counter` is what a call of it on these arguments can give.
proof fn law_insert_counter_is_answered_by_a_call(
    tx: Transaction,
    table: Seq<char>,
    name: Seq<char>,
    value: u64,
    answer: Result<(), Fault>,
)
    requires
        tx.insert_counter_gives(table, name, value, answer),
    ensures
        exists|on: &mut redb::WriteTransaction, t: &'static str, n: &str, v: u64|
            {
                &&& *on == tx.write
                &&& t@ == table
                &&& n@ == name
                &&& v == value
                &&& #[trigger] call_ensures(insert_counter, (on, t, n, v), answer)
            },
{
}

/// What is said of `insert_clock` is what a call of it on these arguments can give.
proof fn law_insert_clock_is_answered_by_a_call(
    tx: Transaction,
    table: Seq<char>,
    name: Seq<char>,
    value: i64,
    answer: Result<(), Fault>,
)
    requires
        tx.insert_clock_gives(table, name, value, answer),
    ensures
        exists|on: &mut redb::WriteTransaction, t: &'static str, n: &str, v: i64|
            {
                &&& *on == tx.write
                &&& t@ == table
                &&& n@ == name
                &&& v == value
                &&& #[trigger] call_ensures(insert_clock, (on, t, n, v), answer)
            },
{
}

/// What is said of `get_seen_row` is what a call of it on these arguments can give.
proof fn law_seen_get_is_answered_by_a_call(
    tx: Snapshot,
    table: Seq<char>,
    key: Seq<u8>,
    answer: Result<Option<Vec<u8>>, Fault>,
)
    requires
        tx.get_gives(table, key, answer),
    ensures
        exists|t: &'static str, k: &[u8]|
            {
                &&& t@ == table
                &&& k@ == key
                &&& #[trigger] call_ensures(get_seen_row, (&tx.read, t, k), answer)
            },
{
}

/// What is said of `get_seen_counter` is what a call of it on these arguments can give.
proof fn law_seen_counter_is_answered_by_a_call(
    tx: Snapshot,
    table: Seq<char>,
    name: Seq<char>,
    answer: Result<Option<u64>, Fault>,
)
    requires
        tx.counter_gives(table, name, answer),
    ensures
        exists|t: &'static str, n: &str|
            {
                &&& t@ == table
                &&& n@ == name
                &&& #[trigger] call_ensures(get_seen_counter, (&tx.read, t, n), answer)
            },
{
}

} // verus!
