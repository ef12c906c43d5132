//! The counter repository: records, lookups, atomic mutation, and the
//! default-counter ledger.

use crate::database::{
    db_counters, db_ledger, statement_commits, storage_err, txn_begin, txn_commit, txn_rollback,
    Connection,
};
use crate::errors::{InsertError, StorageError};
use vstd::prelude::*;
use vstd::wrapping::i64_specs;

verus! {

/// The mathematical record of one counter: everything but its name.
pub ghost struct Rec {
    pub count: i64,
    pub step: i64,
    pub template: Seq<char>,
}

/// A named tally: a current count, the default step applied when no
/// explicit amount is given, and a display template.
#[derive(Debug)]
pub struct Counter {
    pub name: String,
    pub count: i64,
    pub step: i64,
    pub template: String,
}

/// The template every new counter starts with: one bare marker, which the
/// renderer replaces by the counter's own count.
pub open spec fn default_template() -> Seq<char> {
    seq!['{', '}']
}

/// The record every new counter starts with.
pub open spec fn default_rec() -> Rec {
    Rec { count: 0, step: 1, template: default_template() }
}

/// The record that `get_or_create` returns: the existing one, or the
/// default-valued one for an absent name.
pub open spec fn goc_rec(m: Map<Seq<char>, Rec>, name: Seq<char>) -> Rec {
    if m.dom().contains(name) {
        m[name]
    } else {
        default_rec()
    }
}

/// The counter map after `get_or_create`.
pub open spec fn goc_map(m: Map<Seq<char>, Rec>, name: Seq<char>) -> Map<Seq<char>, Rec> {
    m.insert(name, goc_rec(m, name))
}

/// The record after incrementing by `amount`, creating the counter first
/// when absent: the count moves by `amount` with two's-complement
/// wraparound.
pub open spec fn incr_rec(m: Map<Seq<char>, Rec>, name: Seq<char>, amount: i64) -> Rec {
    Rec { count: i64_specs::wrapping_add(goc_rec(m, name).count, amount), ..goc_rec(m, name) }
}

/// The counter map after `increment`.
pub open spec fn incr_map(m: Map<Seq<char>, Rec>, name: Seq<char>, amount: i64) -> Map<
    Seq<char>,
    Rec,
> {
    m.insert(name, incr_rec(m, name, amount))
}

/// The record after decrementing by `amount`, creating the counter first
/// when absent.
pub open spec fn decr_rec(m: Map<Seq<char>, Rec>, name: Seq<char>, amount: i64) -> Rec {
    Rec { count: i64_specs::wrapping_sub(goc_rec(m, name).count, amount), ..goc_rec(m, name) }
}

/// The counter map after `decrement`.
pub open spec fn decr_map(m: Map<Seq<char>, Rec>, name: Seq<char>, amount: i64) -> Map<
    Seq<char>,
    Rec,
> {
    m.insert(name, decr_rec(m, name, amount))
}

impl Counter {
    /// The counter's record: its fields but the name.
    pub open spec fn rec(self) -> Rec {
        Rec { count: self.count, step: self.step, template: self.template@ }
    }

    /// Makes a fresh counter record with the default values: count 0,
    /// step 1, and the bare self-marker as its template.
    pub fn new(name: &str) -> (c: Counter)
        ensures
            c.name@ == name@,
            c.rec() == default_rec(),
    {
        let c = Counter {
            name: name.to_owned(),
            count: 0,
            step: 1,
            template: "{}".to_owned(),
        };
        proof {
            reveal_strlit("{}");
            assert(c.template@ =~= default_template());
        }
        c
    }
}

impl Counter {
    /// Point lookup by name; no side effect.
    pub fn get(conn: &Connection, name: &str) -> (r: Result<Option<Counter>, StorageError>)
        requires
            conn.inv(),
        ensures
            match r {
                Ok(Some(c)) => conn.counters().dom().contains(name@) && c.name@ == name@
                    && c.rec() == conn.counters()[name@],
                Ok(None) => !conn.counters().dom().contains(name@),
                Err(_) => true,
            },
    {
        sql_get(conn, name)
    }

    /// Stores this counter as a new row. Fails with `AlreadyExists`
    /// exactly when a counter of that name is already live.
    pub fn insert(&self, conn: &mut Connection) -> (r: Result<(), InsertError>)
        requires
            old(conn).inv(),
            self.name@.len() > 0,
        ensures
            final(conn).inv(),
            final(conn).ledger() == old(conn).ledger(),
            match r {
                Ok(_) => !old(conn).counters().dom().contains(self.name@) && final(conn).counters()
                    == old(conn).counters().insert(self.name@, self.rec()),
                Err(InsertError::AlreadyExists) => old(conn).counters().dom().contains(self.name@)
                    && final(conn).counters() == old(conn).counters(),
                Err(InsertError::Storage(_)) => final(conn).counters() == old(conn).counters(),
            },
    {
        sql_insert(conn, self)
    }

    /// Full-row replace by name; silently a no-op when the name is
    /// absent, since callers resolve existence through `get_or_create`.
    /// Runs as one transaction: on failure the store is as it was.
    pub fn update(&self, conn: &mut Connection) -> (r: Result<(), StorageError>)
        requires
            old(conn).inv(),
        ensures
            final(conn).inv(),
            match r {
                Ok(_) => final(conn).ledger() == old(conn).ledger() && final(conn).counters() == (
                if old(conn).counters().dom().contains(self.name@) {
                    old(conn).counters().insert(self.name@, self.rec())
                } else {
                    old(conn).counters()
                }),
                Err(_) => final(conn).counters() == old(conn).counters() && final(conn).ledger()
                    == old(conn).ledger(),
            },
    {
        match txn_begin(conn) {
            Ok(()) => {},
            Err(e) => return Err(e),
        }
        match sql_update(conn, self) {
            Ok(()) => {},
            Err(e) => {
                txn_rollback(conn);
                return Err(e);
            },
        }
        match txn_commit(conn) {
            Ok(()) => Ok(()),
            Err(e) => {
                txn_rollback(conn);
                Err(e)
            },
        }
    }

    /// Removes the row under `name`. The result tells deletion of a live
    /// counter (`true`) apart from an absent name (`false`). A ledger
    /// entry naming the deleted counter stays in place. Runs as one
    /// transaction: on failure the store is as it was.
    pub fn delete(conn: &mut Connection, name: &str) -> (r: Result<bool, StorageError>)
        requires
            old(conn).inv(),
        ensures
            final(conn).inv(),
            match r {
                Ok(b) => b == old(conn).counters().dom().contains(name@) && final(conn).counters()
                    == old(conn).counters().remove(name@) && final(conn).ledger() == old(conn).ledger(),
                Err(_) => final(conn).counters() == old(conn).counters() && final(conn).ledger()
                    == old(conn).ledger(),
            },
    {
        match txn_begin(conn) {
            Ok(()) => {},
            Err(e) => return Err(e),
        }
        let n = match sql_delete(conn, name) {
            Ok(n) => n,
            Err(e) => {
                txn_rollback(conn);
                return Err(e);
            },
        };
        match txn_commit(conn) {
            Ok(()) => Ok(n > 0),
            Err(e) => {
                txn_rollback(conn);
                Err(e)
            },
        }
    }

    /// Every live counter, each exactly once, in an order the storage
    /// engine does not promise.
    pub fn get_all(conn: &Connection) -> (r: Result<Vec<Counter>, StorageError>)
        requires
            conn.inv(),
        ensures
            match r {
                Ok(v) => (forall|i: int|
                    0 <= i < v@.len() ==> conn.counters().dom().contains(#[trigger] v@[i].name@)
                        && v@[i].rec() == conn.counters()[v@[i].name@]) && (forall|n: Seq<char>|
                    #[trigger] conn.counters().dom().contains(n) ==> exists|i: int|
                        0 <= i < v@.len() && #[trigger] v@[i].name@ == n) && (forall|i: int, j: int|
                    0 <= i < j < v@.len() ==> v@[i].name@ != v@[j].name@),
                Err(_) => true,
            },
    {
        sql_get_all(conn)
    }

    /// Returns the existing record under `name`, or inserts the
    /// default-valued record and returns it. The insert is attempted
    /// first and a name conflict answered by re-fetching, so a concurrent
    /// creation of the same name is reconciled instead of surfacing. On
    /// failure the store is as it was.
    pub fn get_or_create(conn: &mut Connection, name: &str) -> (r: Result<Counter, StorageError>)
        requires
            old(conn).inv(),
            name@.len() > 0,
        ensures
            final(conn).inv(),
            match r {
                Ok(c) => c.name@ == name@ && c.rec() == goc_rec(old(conn).counters(), name@)
                    && final(conn).counters() == goc_map(old(conn).counters(), name@) && final(conn).ledger() == old(conn).ledger(),
                Err(_) => final(conn).counters() == old(conn).counters() && final(conn).ledger()
                    == old(conn).ledger(),
            },
    {
        let c = Counter::new(name);
        match sql_insert(conn, &c) {
            Ok(()) => {
                proof {
                    assert(conn.counters() =~= goc_map(old(conn).counters(), name@));
                }
                Ok(c)
            },
            Err(InsertError::AlreadyExists) => match sql_get(conn, name) {
                Ok(Some(c2)) => {
                    proof {
                        assert(conn.counters() =~= goc_map(old(conn).counters(), name@));
                    }
                    Ok(c2)
                },
                Ok(None) => Err(StorageError::Failed),
                Err(e) => Err(e),
            },
            Err(InsertError::Storage(e)) => Err(e),
        }
    }

    /// Atomically adds `amount` to the count under `name`, creating the
    /// counter first when absent, and returns the count after the move.
    /// The read-modify-write runs inside one immediate transaction, so no
    /// concurrent writer's update is lost, and on failure the store is as
    /// it was.
    pub fn increment(conn: &mut Connection, name: &str, amount: i64) -> (r: Result<
        i64,
        StorageError,
    >)
        requires
            old(conn).inv(),
            name@.len() > 0,
        ensures
            final(conn).inv(),
            match r {
                Ok(v) => v == incr_rec(old(conn).counters(), name@, amount).count && final(conn).counters() == incr_map(old(conn).counters(), name@, amount) && final(conn).ledger() == old(conn).ledger(),
                Err(_) => final(conn).counters() == old(conn).counters() && final(conn).ledger()
                    == old(conn).ledger(),
            },
    {
        match txn_begin(conn) {
            Ok(()) => {},
            Err(e) => return Err(e),
        }
        let got = match sql_get(conn, name) {
            Ok(g) => g,
            Err(e) => {
                txn_rollback(conn);
                return Err(e);
            },
        };
        let existed = got.is_some();
        let updated = match got {
            Some(c) => Counter { count: c.count.wrapping_add(amount), ..c },
            None => {
                let mut c = Counter::new(name);
                c.count = c.count.wrapping_add(amount);
                c
            },
        };
        let stored = if existed {
            sql_update(conn, &updated)
        } else {
            match sql_insert(conn, &updated) {
                Ok(()) => Ok(()),
                Err(InsertError::AlreadyExists) => Err(StorageError::Failed),
                Err(InsertError::Storage(e)) => Err(e),
            }
        };
        match stored {
            Ok(()) => {},
            Err(e) => {
                txn_rollback(conn);
                return Err(e);
            },
        }
        match txn_commit(conn) {
            Ok(()) => {
                proof {
                    assert(conn.counters() =~= incr_map(old(conn).counters(), name@, amount));
                }
                Ok(updated.count)
            },
            Err(e) => {
                txn_rollback(conn);
                Err(e)
            },
        }
    }

    /// Atomically subtracts `amount` from the count under `name`, creating
    /// the counter first when absent, and returns the count after the
    /// move, under the same transaction discipline as `increment`: on
    /// failure the store is as it was.
    pub fn decrement(conn: &mut Connection, name: &str, amount: i64) -> (r: Result<
        i64,
        StorageError,
    >)
        requires
            old(conn).inv(),
            name@.len() > 0,
        ensures
            final(conn).inv(),
            match r {
                Ok(v) => v == decr_rec(old(conn).counters(), name@, amount).count && final(conn).counters() == decr_map(old(conn).counters(), name@, amount) && final(conn).ledger() == old(conn).ledger(),
                Err(_) => final(conn).counters() == old(conn).counters() && final(conn).ledger()
                    == old(conn).ledger(),
            },
    {
        match txn_begin(conn) {
            Ok(()) => {},
            Err(e) => return Err(e),
        }
        let got = match sql_get(conn, name) {
            Ok(g) => g,
            Err(e) => {
                txn_rollback(conn);
                return Err(e);
            },
        };
        let existed = got.is_some();
        let updated = match got {
            Some(c) => Counter { count: c.count.wrapping_sub(amount), ..c },
            None => {
                let mut c = Counter::new(name);
                c.count = c.count.wrapping_sub(amount);
                c
            },
        };
        let stored = if existed {
            sql_update(conn, &updated)
        } else {
            match sql_insert(conn, &updated) {
                Ok(()) => Ok(()),
                Err(InsertError::AlreadyExists) => Err(StorageError::Failed),
                Err(InsertError::Storage(e)) => Err(e),
            }
        };
        match stored {
            Ok(()) => {},
            Err(e) => {
                txn_rollback(conn);
                return Err(e);
            },
        }
        match txn_commit(conn) {
            Ok(()) => {
                proof {
                    assert(conn.counters() =~= decr_map(old(conn).counters(), name@, amount));
                }
                Ok(updated.count)
            },
            Err(e) => {
                txn_rollback(conn);
                Err(e)
            },
        }
    }

    /// Appends a ledger entry making this counter the default. Earlier
    /// entries are never touched: the current default is always the most
    /// recent entry. Runs as one transaction: on failure the store is as
    /// it was.
    pub fn set_default(&self, conn: &mut Connection) -> (r: Result<(), StorageError>)
        requires
            old(conn).inv(),
        ensures
            final(conn).inv(),
            match r {
                Ok(_) => final(conn).ledger() == old(conn).ledger().push(self.name@) && final(conn).counters() == old(conn).counters(),
                Err(_) => final(conn).counters() == old(conn).counters() && final(conn).ledger()
                    == old(conn).ledger(),
            },
    {
        match txn_begin(conn) {
            Ok(()) => {},
            Err(e) => return Err(e),
        }
        match sql_set_default(conn, self.name.as_str()) {
            Ok(()) => {},
            Err(e) => {
                txn_rollback(conn);
                return Err(e);
            },
        }
        match txn_commit(conn) {
            Ok(()) => Ok(()),
            Err(e) => {
                txn_rollback(conn);
                Err(e)
            },
        }
    }

    /// The name of the most recent ledger entry, or `None` when no
    /// default was ever set. A stale entry naming a deleted counter is
    /// returned as-is; the caller handles a default that no longer
    /// resolves to a live counter.
    pub fn get_default(conn: &Connection) -> (r: Result<Option<String>, StorageError>)
        requires
            conn.inv(),
        ensures
            match r {
                Ok(Some(s)) => conn.ledger().len() > 0 && s@ == conn.ledger().last(),
                Ok(None) => conn.ledger().len() == 0,
                Err(_) => true,
            },
    {
        sql_get_default(conn)
    }
}

/// Inverse law: incrementing a live counter by any amount and then
/// decrementing it by the same amount restores the counter map exactly,
/// count included — wraparound in one direction is undone by the other.
pub proof fn lemma_increment_then_decrement(m: Map<Seq<char>, Rec>, name: Seq<char>, amount: i64)
    requires
        m.dom().contains(name),
    ensures
        decr_map(incr_map(m, name, amount), name, amount) == m,
{
    let c = m[name].count;
    let w = i64_specs::wrapping_add(c, amount);
    assert(i64_specs::wrapping_sub(w, amount) == c);
    assert(decr_rec(incr_map(m, name, amount), name, amount) == m[name]);
    assert(decr_map(incr_map(m, name, amount), name, amount) =~= m);
}

/// Idempotence law: a second `get_or_create` of the same name returns the
/// same record as the first and leaves the counter map where the first
/// call put it — there is no duplicate insertion.
pub proof fn lemma_get_or_create_idempotent(m: Map<Seq<char>, Rec>, name: Seq<char>)
    ensures
        goc_rec(goc_map(m, name), name) == goc_rec(m, name),
        goc_map(goc_map(m, name), name) == goc_map(m, name),
{
    assert(goc_map(goc_map(m, name), name) =~= goc_map(m, name));
}

/// The counter map after `n` increments of one, applied in sequence.
pub open spec fn incr_map_n(m: Map<Seq<char>, Rec>, name: Seq<char>, n: nat) -> Map<Seq<char>, Rec>
    decreases n,
{
    if n == 0 {
        m
    } else {
        incr_map(incr_map_n(m, name, (n - 1) as nat), name, 1)
    }
}

/// No lost updates: `n` increments of one applied to a live counter leave
/// its count exactly `n` above where it started, as long as the total
/// stays in range, and touch nothing else about the counter.
pub proof fn lemma_repeated_increment(m: Map<Seq<char>, Rec>, name: Seq<char>, n: nat)
    requires
        m.dom().contains(name),
        m[name].count + n <= i64::MAX,
    ensures
        incr_map_n(m, name, n).dom().contains(name),
        incr_map_n(m, name, n)[name] == (Rec { count: (m[name].count + n) as i64, ..m[name] }),
    decreases n,
{
    if n > 0 {
        lemma_repeated_increment(m, name, (n - 1) as nat);
    } else {
        assert(m[name] == Rec { count: (m[name].count + 0) as i64, ..m[name] });
    }
}

/// The monotonic default: after setting the default to `a` and then to
/// `b`, the most recent ledger entry — which is what `get_default`
/// returns — names `b`.
pub proof fn lemma_set_default_monotonic(l: Seq<Seq<char>>, a: Seq<char>, b: Seq<char>)
    ensures
        l.push(a).push(b).last() == b,
{
}

/// Sorts a raw sqlite error code for an insert: a constraint violation
/// (primary code 19) means the name was already taken.
pub(crate) fn insert_err(code: Option<isize>) -> InsertError {
    match code {
        Some(c) => if c % 256 == 19 {
            InsertError::AlreadyExists
        } else {
            InsertError::Storage(storage_err(Some(c)))
        },
        None => InsertError::Storage(StorageError::Failed),
    }
}

/// Relies on sqlite's `prepare`, `Statement::bind`, `Statement::next` and
/// the byte-wise column read `read::<Vec<u8>>` (length-delimited, so a
/// stored text comes back whole, embedded NUL bytes included — the
/// crate's String read would stop at the first NUL): returns the row
/// stored under `name`, if any. Text that is not valid UTF-8 is reported
/// as a storage failure.
#[verifier::external_body]
pub(crate) fn sql_get(conn: &Connection, name: &str) -> (r: Result<Option<Counter>, StorageError>)
    ensures
        match r {
            Ok(Some(c)) => conn.counters().dom().contains(name@) && c.name@ == name@ && c.rec()
                == conn.counters()[name@],
            Ok(None) => !conn.counters().dom().contains(name@),
            Err(_) => true,
        },
{
    let res = || -> sqlite::Result<Option<Counter>> {
        let mut stmt = conn.conn.prepare("SELECT count, step, template FROM counters WHERE name = ?")?;
        stmt.bind((1, name))?;
        if stmt.next()? != sqlite::State::Row {
            return Ok(None);
        }
        let template = String::from_utf8(stmt.read(2)?)
            .map_err(|_| sqlite::Error { code: None, message: None })?;
        Ok(Some(Counter { name: name.to_owned(), count: stmt.read(0)?, step: stmt.read(1)?, template }))
    }();
    res.map_err(|e| storage_err(e.code))
}

/// Relies on sqlite's `prepare`/`bind`/`next` running `INSERT INTO
/// counters`: succeeds exactly when no row of that name exists, and then
/// adds the row; a failed statement changes nothing. A constraint
/// violation (primary error code 19) can only be the primary key here,
/// since all four columns are bound to non-null values.
#[verifier::external_body]
pub(crate) fn sql_insert(conn: &mut Connection, c: &Counter) -> (r: Result<(), InsertError>)
    ensures
        db_ledger(final(conn).conn) == db_ledger(old(conn).conn),
        statement_commits(*old(conn), *final(conn)),
        match r {
            Ok(_) => !old(conn).counters().dom().contains(c.name@) && final(conn).counters()
                == old(conn).counters().insert(c.name@, c.rec()),
            Err(InsertError::AlreadyExists) => old(conn).counters().dom().contains(c.name@)
                && final(conn).counters() == old(conn).counters(),
            Err(InsertError::Storage(_)) => final(conn).counters() == old(conn).counters(),
        },
{
    let res = || -> sqlite::Result<()> {
        let mut stmt = conn.conn.prepare(
            "INSERT INTO counters (name, count, step, template) VALUES (?, ?, ?, ?)",
        )?;
        stmt.bind((1, c.name.as_str()))?;
        stmt.bind((2, c.count))?;
        stmt.bind((3, c.step))?;
        stmt.bind((4, c.template.as_str()))?;
        stmt.next()?;
        Ok(())
    }();
    res.map_err(|e| insert_err(e.code))
}

/// Relies on sqlite's `prepare`/`bind`/`next` running `UPDATE counters SET
/// ... WHERE name = ?`: replaces the row under the counter's name if it
/// exists and does nothing otherwise; a failed statement changes nothing.
#[verifier::external_body]
pub(crate) fn sql_update(conn: &mut Connection, c: &Counter) -> (r: Result<(), StorageError>)
    ensures
        db_ledger(final(conn).conn) == db_ledger(old(conn).conn),
        statement_commits(*old(conn), *final(conn)),
        match r {
            Ok(_) => final(conn).counters() == (if old(conn).counters().dom().contains(c.name@) {
                old(conn).counters().insert(c.name@, c.rec())
            } else {
                old(conn).counters()
            }),
            Err(_) => final(conn).counters() == old(conn).counters(),
        },
{
    let res = || -> sqlite::Result<()> {
        let mut stmt = conn.conn.prepare(
            "UPDATE counters SET count = ?, step = ?, template = ? WHERE name = ?",
        )?;
        stmt.bind((1, c.count))?;
        stmt.bind((2, c.step))?;
        stmt.bind((3, c.template.as_str()))?;
        stmt.bind((4, c.name.as_str()))?;
        stmt.next()?;
        Ok(())
    }();
    res.map_err(|e| storage_err(e.code))
}

/// Relies on sqlite's `prepare`/`bind`/`next` running `DELETE FROM
/// counters WHERE name = ?` and on `Connection::change_count` reporting the
/// rows the statement removed: the row under `name` goes away and the
/// count says whether it was there; a failed statement changes nothing.
#[verifier::external_body]
pub(crate) fn sql_delete(conn: &mut Connection, name: &str) -> (r: Result<usize, StorageError>)
    ensures
        db_ledger(final(conn).conn) == db_ledger(old(conn).conn),
        statement_commits(*old(conn), *final(conn)),
        match r {
            Ok(n) => final(conn).counters() == old(conn).counters().remove(name@) && n == (
            if old(conn).counters().dom().contains(name@) {
                1int
            } else {
                0int
            }),
            Err(_) => final(conn).counters() == old(conn).counters(),
        },
{
    let res = || -> sqlite::Result<()> {
        let mut stmt = conn.conn.prepare("DELETE FROM counters WHERE name = ?")?;
        stmt.bind((1, name))?;
        stmt.next()?;
        Ok(())
    }();
    match res {
        Ok(()) => Ok(conn.conn.change_count()),
        Err(e) => Err(storage_err(e.code)),
    }
}

/// Relies on sqlite's `prepare`/`next` and the byte-wise column read
/// `read::<Vec<u8>>` (length-delimited, so names and templates come back
/// whole, embedded NUL bytes included) running `SELECT` over the whole
/// counter table: returns every live row exactly once, in an order the
/// engine does not promise. Text that is not valid UTF-8 is reported as a
/// storage failure.
#[verifier::external_body]
pub(crate) fn sql_get_all(conn: &Connection) -> (r: Result<Vec<Counter>, StorageError>)
    ensures
        match r {
            Ok(v) => (forall|i: int|
                0 <= i < v@.len() ==> conn.counters().dom().contains(#[trigger] v@[i].name@)
                    && v@[i].rec() == conn.counters()[v@[i].name@]) && (forall|n: Seq<char>|
                #[trigger] conn.counters().dom().contains(n) ==> exists|i: int|
                    0 <= i < v@.len() && #[trigger] v@[i].name@ == n) && (forall|i: int, j: int|
                0 <= i < j < v@.len() ==> v@[i].name@ != v@[j].name@),
            Err(_) => true,
        },
{
    let res = || -> sqlite::Result<Vec<Counter>> {
        let mut stmt = conn.conn.prepare("SELECT name, count, step, template FROM counters")?;
        let mut v = Vec::new();
        while stmt.next()? == sqlite::State::Row {
            let name = String::from_utf8(stmt.read(0)?)
                .map_err(|_| sqlite::Error { code: None, message: None })?;
            let template = String::from_utf8(stmt.read(3)?)
                .map_err(|_| sqlite::Error { code: None, message: None })?;
            v.push(Counter { name, count: stmt.read(1)?, step: stmt.read(2)?, template });
        }
        Ok(v)
    }();
    res.map_err(|e| storage_err(e.code))
}

/// Relies on sqlite's `prepare`/`bind`/`next` running `INSERT INTO
/// default_counter (name, timestamp) VALUES (?, CURRENT_TIMESTAMP)`, on
/// row identifiers ascending with insertion, and on `CURRENT_TIMESTAMP`
/// never preceding a timestamp already stored (the host clock not stepping
/// back): the new entry becomes the last one in resolution order; a failed
/// statement changes nothing.
#[verifier::external_body]
pub(crate) fn sql_set_default(conn: &mut Connection, name: &str) -> (r: Result<(), StorageError>)
    ensures
        db_counters(final(conn).conn) == db_counters(old(conn).conn),
        statement_commits(*old(conn), *final(conn)),
        match r {
            Ok(_) => final(conn).ledger() == old(conn).ledger().push(name@),
            Err(_) => final(conn).ledger() == old(conn).ledger(),
        },
{
    let res = || -> sqlite::Result<()> {
        let mut stmt = conn.conn.prepare(
            "INSERT INTO default_counter (name, timestamp) VALUES (?, CURRENT_TIMESTAMP)",
        )?;
        stmt.bind((1, name))?;
        stmt.next()?;
        Ok(())
    }();
    res.map_err(|e| storage_err(e.code))
}

/// Relies on sqlite's `prepare`/`next` and the byte-wise column read
/// `read::<Vec<u8>>` (length-delimited, so the stored name comes back
/// whole, embedded NUL bytes included) running `SELECT name FROM
/// default_counter ORDER BY timestamp DESC, rowid DESC LIMIT 1`: returns
/// the last ledger entry in resolution order, or nothing when the ledger
/// is empty. A name that is not valid UTF-8 is reported as a storage
/// failure.
#[verifier::external_body]
pub(crate) fn sql_get_default(conn: &Connection) -> (r: Result<Option<String>, StorageError>)
    ensures
        match r {
            Ok(Some(s)) => conn.ledger().len() > 0 && s@ == conn.ledger().last(),
            Ok(None) => conn.ledger().len() == 0,
            Err(_) => true,
        },
{
    let res = || -> sqlite::Result<Option<String>> {
        let mut stmt = conn.conn.prepare(
            "SELECT name FROM default_counter ORDER BY timestamp DESC, rowid DESC LIMIT 1",
        )?;
        if stmt.next()? != sqlite::State::Row {
            return Ok(None);
        }
        let name = String::from_utf8(stmt.read(0)?)
            .map_err(|_| sqlite::Error { code: None, message: None })?;
        Ok(Some(name))
    }();
    res.map_err(|e| storage_err(e.code))
}

} // verus!
