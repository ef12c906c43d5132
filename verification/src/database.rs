//! The storage handle: an embedded sqlite database holding the counter
//! table and the default-counter ledger.
//!
//! The database contents are modelled by two uninterpreted functions over
//! the connection value: `db_counters`, the live counter rows as a map from
//! name to record, and `db_ledger`, the default-counter entries in the
//! order that default resolution uses (ascending timestamp, ties broken by
//! insertion order). Trusted wrappers around single SQL statements state
//! how each statement moves those two views; everything above them is
//! verified against the wrappers' contracts.
//!
//! Beside the raw connection the handle carries a ghost `Durable` record:
//! the contents as last committed, and whether an explicit transaction is
//! open. Outside a transaction sqlite commits each statement by itself, so
//! the live and the committed contents coincide; inside one they part, and
//! a rollback returns the live contents to the committed ones. That is
//! what lets every mutating operation state that a failure leaves the
//! store as it was.

use crate::errors::{InsertError, StorageError};
use crate::models::{default_rec, sql_get_all, sql_insert, sql_set_default, Counter, Rec};
use vstd::prelude::*;

verus! {

#[verifier::external_type_specification]
#[verifier::external_body]
pub struct ExConnectionThreadSafe(sqlite::ConnectionThreadSafe);

/// The live counter rows behind a connection: each counter name maps to
/// its current record.
pub uninterp spec fn db_counters(conn: sqlite::ConnectionThreadSafe) -> Map<Seq<char>, Rec>;

/// The default-counter ledger behind a connection: the names of the
/// append-only entries, ordered as default resolution orders them
/// (ascending timestamp, then ascending row identifier).
pub uninterp spec fn db_ledger(conn: sqlite::ConnectionThreadSafe) -> Seq<Seq<char>>;

/// The durable side of a handle: the contents as last committed, and
/// whether an explicit transaction is open on the connection.
pub ghost struct Durable {
    pub counters: Map<Seq<char>, Rec>,
    pub ledger: Seq<Seq<char>>,
    pub in_txn: bool,
}

/// An open handle on the counter database.
///
/// The model reads the store's contents as a function of this one handle:
/// what its contracts promise holds as long as no other handle or process
/// writes the same file between the calls. Concurrent writers are still
/// safe at run time — sqlite's locking and the explicit transactions keep
/// every read-modify-write atomic — but a fact proved about one handle
/// does not survive another handle's interleaved write.
pub struct Connection {
    pub conn: sqlite::ConnectionThreadSafe,
    pub durable: Ghost<Durable>,
}

/// The name of the conventional counter that first-run seeding creates.
pub open spec fn tally_name() -> Seq<char> {
    seq!['t', 'a', 'l', 'l', 'y']
}

impl Connection {
    /// The live counter rows, as a map from name to record.
    pub open spec fn counters(self) -> Map<Seq<char>, Rec> {
        db_counters(self.conn)
    }

    /// The names in the default-counter ledger, oldest first.
    pub open spec fn ledger(self) -> Seq<Seq<char>> {
        db_ledger(self.conn)
    }

    /// The counter rows as last committed.
    pub open spec fn committed_counters(self) -> Map<Seq<char>, Rec> {
        self.durable@.counters
    }

    /// The ledger as last committed.
    pub open spec fn committed_ledger(self) -> Seq<Seq<char>> {
        self.durable@.ledger
    }

    /// Whether an explicit transaction is open on this handle.
    pub open spec fn in_txn(self) -> bool {
        self.durable@.in_txn
    }

    /// The handle's invariant between operations: the row set is finite (a
    /// sqlite table holds finitely many rows), no transaction is left
    /// open, and — since sqlite commits each standalone statement by
    /// itself — the live contents are the committed ones.
    pub open spec fn inv(self) -> bool {
        &&& db_counters(self.conn).dom().finite()
        &&& !self.in_txn()
        &&& self.committed_counters() == db_counters(self.conn)
        &&& self.committed_ledger() == db_ledger(self.conn)
    }

    /// The raw thread-safe sqlite connection.
    pub fn get(&self) -> (r: &sqlite::ConnectionThreadSafe)
        ensures
            *r == self.conn,
    {
        &self.conn
    }

    /// Opens (or creates) the database at `path`, making sure the schema
    /// exists, and seeds the first run. On success the store either was
    /// freshly seeded — it holds exactly the conventional counter
    /// "tally", marked default — or it already held counters.
    pub fn new(path: &str) -> (r: Result<Connection, StorageError>)
        ensures
            r matches Ok(c) ==> c.inv() && (freshly_seeded(c) || exists|n: Seq<char>|
                c.counters().dom().contains(n)),
    {
        let raw = match open_db(path, BUSY_TIMEOUT_MS) {
            Ok(c) => c,
            Err(e) => return Err(e),
        };
        let ghost d = Durable {
            counters: db_counters(raw),
            ledger: db_ledger(raw),
            in_txn: false,
        };
        let mut conn = Connection { conn: raw, durable: Ghost(d) };
        match conn.seed_if_empty() {
            Ok(_) => Ok(conn),
            Err(e) => Err(e),
        }
    }

    /// First-run seeding, as one transaction: when the store holds no
    /// counters at all, creates the conventional counter "tally" with the
    /// default record and appends the ledger entry marking it default.
    /// Returns whether it seeded; on failure the store is as it was.
    pub fn seed_if_empty(&mut self) -> (r: Result<bool, StorageError>)
        requires
            old(self).inv(),
        ensures
            final(self).inv(),
            match r {
                Ok(true) => (forall|n: Seq<char>| !old(self).counters().dom().contains(n))
                    && final(self).counters() == Map::<Seq<char>, Rec>::empty().insert(
                    tally_name(),
                    default_rec(),
                ) && final(self).ledger() == old(self).ledger().push(tally_name()),
                Ok(false) => (exists|n: Seq<char>| old(self).counters().dom().contains(n))
                    && final(self).counters() == old(self).counters() && final(self).ledger()
                    == old(self).ledger(),
                Err(_) => final(self).counters() == old(self).counters() && final(self).ledger()
                    == old(self).ledger(),
            },
    {
        match txn_begin(self) {
            Ok(()) => {},
            Err(e) => return Err(e),
        }
        let existing = match sql_get_all(self) {
            Ok(v) => v,
            Err(e) => {
                txn_rollback(self);
                return Err(e);
            },
        };
        if existing.len() > 0 {
            proof {
                assert(old(self).counters().dom().contains(existing@[0].name@));
            }
            match txn_commit(self) {
                Ok(()) => Ok(false),
                Err(e) => {
                    txn_rollback(self);
                    Err(e)
                },
            }
        } else {
            proof {
                reveal_strlit("tally");
            }
            let seed = Counter::new("tally");
            proof {
                assert(seed.name@ =~= tally_name());
            }
            match sql_insert(self, &seed) {
                Ok(()) => {},
                Err(InsertError::AlreadyExists) => {
                    txn_rollback(self);
                    return Err(StorageError::Failed);
                },
                Err(InsertError::Storage(e)) => {
                    txn_rollback(self);
                    return Err(e);
                },
            }
            match sql_set_default(self, "tally") {
                Ok(()) => {},
                Err(e) => {
                    txn_rollback(self);
                    return Err(e);
                },
            }
            match txn_commit(self) {
                Ok(()) => {
                    proof {
                        assert(self.counters() =~= Map::<Seq<char>, Rec>::empty().insert(
                            tally_name(),
                            default_rec(),
                        ));
                    }
                    Ok(true)
                },
                Err(e) => {
                    txn_rollback(self);
                    Err(e)
                },
            }
        }
    }
}

/// A store that first-run seeding has just set up: exactly the
/// conventional counter with its default record, and the ledger naming it
/// last.
pub open spec fn freshly_seeded(c: Connection) -> bool {
    &&& c.counters() == Map::<Seq<char>, Rec>::empty().insert(tally_name(), default_rec())
    &&& c.ledger().len() > 0
    &&& c.ledger().last() == tally_name()
}

/// How one standalone SQL statement moves the committed side of a handle:
/// inside an explicit transaction it commits nothing; outside one, sqlite
/// commits the statement by itself, so the committed contents become the
/// live ones (which a failed statement leaves unchanged).
pub open spec fn statement_commits(pre: Connection, post: Connection) -> bool {
    &&& post.in_txn() == pre.in_txn()
    &&& pre.in_txn() ==> post.committed_counters() == pre.committed_counters()
        && post.committed_ledger() == pre.committed_ledger()
    &&& !pre.in_txn() ==> post.committed_counters() == db_counters(post.conn)
        && post.committed_ledger() == db_ledger(post.conn)
}

/// How long a write attempt blocks on another writer's lock before it
/// fails, in milliseconds.
pub const BUSY_TIMEOUT_MS: usize = 5000;

/// Sorts a raw sqlite error code into the storage error taxonomy.
/// Codes 5 and 6 are sqlite's "database is busy" and "table is locked".
pub(crate) fn storage_err(code: Option<isize>) -> (e: StorageError)
    ensures
        e == (if code == Some(5isize) || code == Some(6isize) {
            StorageError::Busy
        } else {
            StorageError::Failed
        }),
{
    match code {
        Some(c) => if c == 5 || c == 6 {
            StorageError::Busy
        } else {
            StorageError::Failed
        },
        None => StorageError::Failed,
    }
}

/// Relies on sqlite's `Connection::open_thread_safe`, `set_busy_timeout`
/// and `execute`: opens (or creates) the database file, enables write-ahead
/// logging and a busy timeout, and creates the counter table and the
/// default-counter ledger table if they are absent. A sqlite table holds
/// finitely many rows; a fresh connection starts in autocommit mode with
/// no transaction open, which is what the caller's ghost model records.
#[verifier::external_body]
pub(crate) fn open_db(path: &str, busy_ms: usize) -> (r: Result<
    sqlite::ConnectionThreadSafe,
    StorageError,
>)
    ensures
        r matches Ok(c) ==> db_counters(c).dom().finite(),
{
    let res = || -> sqlite::Result<sqlite::ConnectionThreadSafe> {
        let mut conn = sqlite::Connection::open_thread_safe(path)?;
        conn.set_busy_timeout(busy_ms)?;
        conn.execute("PRAGMA journal_mode = WAL;")?;
        conn.execute("CREATE TABLE IF NOT EXISTS counters (name TEXT PRIMARY KEY, count INTEGER NOT NULL, step INTEGER NOT NULL, template TEXT NOT NULL);")?;
        conn.execute("CREATE TABLE IF NOT EXISTS default_counter (name TEXT NOT NULL, timestamp DATETIME NOT NULL, FOREIGN KEY (name) REFERENCES counters(name));")?;
        Ok(conn)
    }();
    res.map_err(|_| StorageError::Unopenable)
}

/// Relies on sqlite's `Connection::execute` running `BEGIN IMMEDIATE`:
/// starting a transaction takes the write lock but changes no rows and
/// commits nothing, whether it succeeds or fails; on success a transaction
/// is open afterwards.
#[verifier::external_body]
pub(crate) fn txn_begin(conn: &mut Connection) -> (r: Result<(), StorageError>)
    ensures
        db_counters(final(conn).conn) == db_counters(old(conn).conn),
        db_ledger(final(conn).conn) == db_ledger(old(conn).conn),
        final(conn).committed_counters() == old(conn).committed_counters(),
        final(conn).committed_ledger() == old(conn).committed_ledger(),
        r matches Ok(_) ==> final(conn).in_txn(),
        r matches Err(_) ==> final(conn).in_txn() == old(conn).in_txn(),
{
    conn.conn.execute("BEGIN IMMEDIATE;").map_err(|e| storage_err(e.code))
}

/// Relies on sqlite's `Connection::execute` running `COMMIT`: a successful
/// commit closes the transaction, changes no rows, and makes the live
/// contents the committed ones. A failed commit commits nothing — the
/// committed contents stay — but may leave the transaction open or rolled
/// back, so the live contents and the transaction state are left open
/// here; the caller rolls back.
#[verifier::external_body]
pub(crate) fn txn_commit(conn: &mut Connection) -> (r: Result<(), StorageError>)
    ensures
        db_counters(final(conn).conn).dom().finite(),
        r matches Ok(_) ==> db_counters(final(conn).conn) == db_counters(old(conn).conn)
            && db_ledger(final(conn).conn) == db_ledger(old(conn).conn) && !final(conn).in_txn()
            && final(conn).committed_counters() == db_counters(final(conn).conn)
            && final(conn).committed_ledger() == db_ledger(final(conn).conn),
        r matches Err(_) ==> final(conn).committed_counters() == old(conn).committed_counters()
            && final(conn).committed_ledger() == old(conn).committed_ledger(),
{
    conn.conn.execute("COMMIT;").map_err(|e| storage_err(e.code))
}

/// Relies on sqlite's `Connection::execute` running `ROLLBACK`: an open
/// transaction's changes are discarded, so the live contents return to
/// the committed ones and no transaction stays open. With no transaction
/// open (for instance after a failed commit that already rolled back) the
/// statement fails harmlessly, and the live contents are the committed
/// ones anyway, since standalone statements commit themselves.
#[verifier::external_body]
pub(crate) fn txn_rollback(conn: &mut Connection)
    ensures
        final(conn).committed_counters() == old(conn).committed_counters(),
        final(conn).committed_ledger() == old(conn).committed_ledger(),
        !final(conn).in_txn(),
        db_counters(final(conn).conn) == old(conn).committed_counters(),
        db_ledger(final(conn).conn) == old(conn).committed_ledger(),
{
    let _ = conn.conn.execute("ROLLBACK;");
}

} // verus!
