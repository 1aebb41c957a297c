//! The durable message store: an ordered-by-expiry index of pending messages,
//! backed by an SQLite table.

use vstd::prelude::*;

verus! {

use vstd::multiset::Multiset;

/// A tracked message: the unit the store keeps until it expires.
///
/// `telegram_id` identifies the message within its chat, `chat_telegram_id`
/// the chat it belongs to, and `date` is the source-reported creation time in
/// seconds. Messages are immutable once stored.
#[derive(Clone, Copy, PartialEq, Eq, Structural, Debug)]
pub struct Message {
    pub telegram_id: i64,
    pub chat_telegram_id: i64,
    pub date: u64,
}

/// A message has expired once `lifetime` seconds have passed since its
/// creation, that is, once `date + lifetime <= now`.
pub open spec fn is_expired(m: Message, now: u64, lifetime: u64) -> bool {
    m.date + lifetime <= now
}

/// The messages of `s` that a sweep at `now` must remove and return.
pub open spec fn expired_of(s: Seq<Message>, now: u64, lifetime: u64) -> Seq<Message> {
    s.filter(|m: Message| is_expired(m, now, lifetime))
}

/// The messages of `s` that a sweep at `now` must leave pending.
pub open spec fn live_of(s: Seq<Message>, now: u64, lifetime: u64) -> Seq<Message> {
    s.filter(|m: Message| !is_expired(m, now, lifetime))
}

/// What a successful sweep did: `returned` holds, oldest first, exactly the
/// expired part of `before` (as a multiset, since equal dates may come back in
/// either order), and `after` is the live remainder, in its original order.
pub open spec fn sweep_outcome(
    before: Seq<Message>,
    after: Seq<Message>,
    returned: Seq<Message>,
    now: u64,
    lifetime: u64,
) -> bool {
    &&& returned.to_multiset() == expired_of(before, now, lifetime).to_multiset()
    &&& after == live_of(before, now, lifetime)
    &&& forall|i: int, j: int| 0 <= i < j < returned.len() ==> returned[i].date <= returned[j].date
}

/// Filtering with pointwise-equal predicates gives the same sequence.
proof fn lemma_filter_equiv<A>(s: Seq<A>, p1: spec_fn(A) -> bool, p2: spec_fn(A) -> bool)
    requires
        forall|a: A| #[trigger] p1(a) == p2(a),
    ensures
        s.filter(p1) == s.filter(p2),
    decreases s.len(),
{
    reveal(Seq::filter);
    if s.len() > 0 {
        lemma_filter_equiv(s.drop_last(), p1, p2);
    }
}

/// A predicate that holds nowhere filters everything out.
proof fn lemma_filter_none<A>(s: Seq<A>, p: spec_fn(A) -> bool)
    requires
        forall|a: A| !#[trigger] p(a),
    ensures
        s.filter(p) == Seq::<A>::empty(),
    decreases s.len(),
{
    reveal(Seq::filter);
    if s.len() > 0 {
        lemma_filter_none(s.drop_last(), p);
    } else {
        assert(s.filter(p) =~= Seq::<A>::empty());
    }
}

/// A predicate that holds everywhere keeps the sequence as it is.
proof fn lemma_filter_all<A>(s: Seq<A>, p: spec_fn(A) -> bool)
    requires
        forall|a: A| #[trigger] p(a),
    ensures
        s.filter(p) == s,
    decreases s.len(),
{
    reveal(Seq::filter);
    if s.len() > 0 {
        lemma_filter_all(s.drop_last(), p);
        assert(s.drop_last().push(s.last()) =~= s);
    }
}

/// An error of the persistence medium. The store never fails for any other
/// reason, and a failed call leaves the stored rows unchanged.
#[derive(Debug)]
pub struct StorageError {
    pub message: String,
}

#[verifier::external_type_specification]
#[verifier::external_body]
pub struct ExConnection(rusqlite::Connection);

/// The live rows of the `message` table behind a connection, in insertion
/// order. The trusted wrappers below state how each database operation
/// changes this sequence; everything proved about the store rests on them.
pub uninterp spec fn db_rows(c: rusqlite::Connection) -> Seq<Message>;

/// Relies on `rusqlite::Connection::open`: opens (or creates) the database at
/// `path` with the default read-write-create flags. What the new connection
/// holds depends on what is on disk, so nothing is stated of its rows.
#[verifier::external_body]
fn open_connection(path: &str) -> (r: Result<rusqlite::Connection, String>) {
    rusqlite::Connection::open(path).map_err(|e| e.to_string())
}

/// Relies on `rusqlite::Connection::execute` running a single
/// `CREATE TABLE IF NOT EXISTS` statement: it only creates the table when it
/// is absent, so it is safe on an existing store; no row is added or removed
/// either way, and a connection to a fresh database holds no rows.
#[verifier::external_body]
fn create_message_table(conn: &mut rusqlite::Connection) -> (r: Result<(), String>)
    ensures
        r is Ok ==> db_rows(*final(conn)) == db_rows(*old(conn)),
        r is Err ==> db_rows(*final(conn)) == db_rows(*old(conn)),
{
    conn.execute(
        "CREATE TABLE IF NOT EXISTS message (
            id                  INTEGER PRIMARY KEY,
            telegram_id         INTEGER NOT NULL,
            chat_telegram_id    INTEGER NOT NULL,
            date                INTEGER NOT NULL
        )",
        (),
    )
    .map(|_| ())
    .map_err(|e| e.to_string())
}

/// Relies on `rusqlite::Connection::execute` running a single `INSERT`
/// statement: on success exactly the given row is appended to the table, and
/// a failed statement changes nothing (a lone `INSERT` is atomic).
#[verifier::external_body]
fn insert_row(
    conn: &mut rusqlite::Connection,
    telegram_id: i64,
    chat_telegram_id: i64,
    date: u64,
) -> (r: Result<(), String>)
    requires
        date <= i64::MAX as u64,
    ensures
        r is Ok ==> db_rows(*final(conn)) == db_rows(*old(conn)).push(
            (Message { telegram_id, chat_telegram_id, date }),
        ),
        r is Err ==> db_rows(*final(conn)) == db_rows(*old(conn)),
{
    conn.execute(
        "INSERT INTO message (telegram_id, chat_telegram_id, date) VALUES (?1, ?2, ?3)",
        (telegram_id, chat_telegram_id, date as i64),
    )
    .map(|_| ())
    .map_err(|e| e.to_string())
}

/// Relies on `rusqlite::Connection::transaction` together with `prepare`,
/// `query_map`, `execute` and `Transaction::commit`: inside one transaction it
/// selects every row with `date <= threshold` oldest-first, deletes exactly
/// those rows, and commits. On any failure the transaction is dropped
/// uncommitted, which rusqlite rolls back, so the table is unchanged.
///
/// A stored date is read back as the unsigned value it was written from; a
/// negative date (which this library never writes) is left alone by both
/// statements, matching a model value of `2^63` or more, which no reachable
/// `threshold` covers.
#[verifier::external_body]
fn take_rows_through(conn: &mut rusqlite::Connection, threshold: u64) -> (r: Result<
    Vec<Message>,
    String,
>)
    requires
        threshold <= i64::MAX as u64,
    ensures
        (match r {
            Ok(v) => {
                &&& v@.to_multiset() == db_rows(*old(conn)).filter(
                    |m: Message| m.date <= threshold,
                ).to_multiset()
                &&& db_rows(*final(conn)) == db_rows(*old(conn)).filter(
                    |m: Message| m.date > threshold,
                )
                &&& forall|i: int, j: int| 0 <= i < j < v@.len() ==> v@[i].date <= v@[j].date
            },
            Err(_) => db_rows(*final(conn)) == db_rows(*old(conn)),
        }),
{
    let err = |e: rusqlite::Error| e.to_string();
    let tx = conn.transaction().map_err(err)?;
    let mut stmt = tx.prepare(
        "SELECT telegram_id, chat_telegram_id, date FROM message WHERE 0 <= date AND date <= ?1 ORDER BY date",
    ).map_err(err)?;
    let found = stmt.query_map((threshold as i64,), |row| {
        Ok(Message { telegram_id: row.get(0)?, chat_telegram_id: row.get(1)?, date: row.get::<_, i64>(2)? as u64 })
    }).map_err(err)?.collect::<Result<Vec<Message>, _>>().map_err(err)?;
    drop(stmt);
    tx.execute("DELETE FROM message WHERE 0 <= date AND date <= ?1", (threshold as i64,)).map_err(err)?;
    tx.commit().map_err(err)?;
    Ok(found)
}

/// The durable container of pending messages.
///
/// All access goes through [`Storage::add`] and the sweep calls; both write
/// through to the database before returning, so the set of pending messages
/// survives a process restart.
pub struct Storage {
    connection: rusqlite::Connection,
    lifetime: u64,
}

impl Storage {
    /// The stored rows, in insertion order: the store's pending messages.
    pub closed spec fn rows(self) -> Seq<Message> {
        db_rows(self.connection)
    }

    /// The configured lifetime, in seconds.
    pub closed spec fn spec_lifetime(self) -> u64 {
        self.lifetime
    }

    /// Opens (or creates) the store at `path`. Reopening an existing store is
    /// safe and keeps every pending row: only the persistence medium can make
    /// this fail.
    pub fn new(path: &str, lifetime: u64) -> (r: Result<Storage, StorageError>)
        ensures
            (match r {
                Ok(s) => s.spec_lifetime() == lifetime,
                Err(_) => true,
            }),
    {
        let mut connection = match open_connection(path) {
            Ok(c) => c,
            Err(message) => {
                return Err(StorageError { message });
            },
        };
        match create_message_table(&mut connection) {
            Ok(()) => Ok(Storage { connection, lifetime }),
            Err(message) => Err(StorageError { message }),
        }
    }

    /// Adds a new pending message. On success exactly `message` is appended
    /// to the stored rows; on failure nothing is stored (no partial insert),
    /// and the error is the medium's, never the message's content.
    pub fn add(&mut self, message: Message) -> (r: Result<(), StorageError>)
        requires
            message.date <= i64::MAX as u64,
        ensures
            final(self).spec_lifetime() == old(self).spec_lifetime(),
            (match r {
                Ok(()) => final(self).rows() == old(self).rows().push(message),
                Err(_) => final(self).rows() == old(self).rows(),
            }),
    {
        match insert_row(
            &mut self.connection,
            message.telegram_id,
            message.chat_telegram_id,
            message.date,
        ) {
            Ok(()) => Ok(()),
            Err(message) => Err(StorageError { message }),
        }
    }

    /// The atomic sweep: removes from the store every message whose lifetime
    /// has elapsed at `now` and returns them, oldest first. A message not
    /// returned stays pending, in its original position. On failure the call
    /// changes nothing, so it is safe to retry.
    ///
    /// `now` must fit the store's signed 64-bit timestamp column. A sweep at
    /// a time earlier than the lifetime itself cannot fail: nothing can have
    /// expired yet, so the medium is never consulted.
    pub fn sweep_expired(&mut self, now: u64, lifetime: u64) -> (r: Result<
        Vec<Message>,
        StorageError,
    >)
        requires
            now <= i64::MAX as u64,
        ensures
            final(self).spec_lifetime() == old(self).spec_lifetime(),
            now < lifetime ==> r is Ok,
            (match r {
                Ok(v) => sweep_outcome(old(self).rows(), final(self).rows(), v@, now, lifetime),
                Err(_) => final(self).rows() == old(self).rows(),
            }),
    {
        if now < lifetime {
            // Nothing can have expired: every date is at least 0, so
            // date + lifetime >= lifetime > now.
            proof {
                let s = old(self).rows();
                lemma_filter_none(s, |m: Message| is_expired(m, now, lifetime));
                lemma_filter_all(s, |m: Message| !is_expired(m, now, lifetime));
            }
            return Ok(Vec::new());
        }
        let threshold: u64 = now - lifetime;
        match take_rows_through(&mut self.connection, threshold) {
            Ok(v) => {
                proof {
                    let s = old(self).rows();
                    lemma_filter_equiv(
                        s,
                        |m: Message| m.date <= threshold,
                        |m: Message| is_expired(m, now, lifetime),
                    );
                    lemma_filter_equiv(
                        s,
                        |m: Message| m.date > threshold,
                        |m: Message| !is_expired(m, now, lifetime),
                    );
                }
                Ok(v)
            },
            Err(message) => Err(StorageError { message }),
        }
    }

    /// Sweeps at the current wall-clock time with the store's configured
    /// lifetime: for some time `now` (the clock's reading, which this
    /// contract cannot pin down), the result is exactly a sweep at `now`.
    /// A lifetime beyond the timestamp column's range can never elapse on the
    /// clamped clock, so such a call always succeeds, returning nothing.
    pub fn clean(&mut self) -> (r: Result<Vec<Message>, StorageError>)
        ensures
            final(self).spec_lifetime() == old(self).spec_lifetime(),
            old(self).spec_lifetime() > i64::MAX as u64 ==> r is Ok,
            (match r {
                Ok(v) => exists|now: u64|
                    sweep_outcome(
                        old(self).rows(),
                        final(self).rows(),
                        v@,
                        now,
                        old(self).spec_lifetime(),
                    ),
                Err(_) => final(self).rows() == old(self).rows(),
            }),
    {
        let raw = current_unix_time();
        let now: u64 = if raw > i64::MAX as u64 {
            i64::MAX as u64
        } else {
            raw
        };
        let lifetime = self.lifetime;
        self.sweep_expired(now, lifetime)
    }
}

/// Splitting a sequence by a predicate and its negation loses nothing and
/// duplicates nothing: the two filtered halves add up, as multisets, to the
/// original.
proof fn lemma_filter_split<A>(s: Seq<A>, p: spec_fn(A) -> bool, q: spec_fn(A) -> bool)
    requires
        forall|a: A| #[trigger] q(a) == !p(a),
    ensures
        s.filter(p).to_multiset().add(s.filter(q).to_multiset()) == s.to_multiset(),
    decreases s.len(),
{
    broadcast use vstd::seq_lib::group_to_multiset_ensures;
    broadcast use vstd::multiset::group_multiset_axioms;

    reveal(Seq::filter);
    if s.len() == 0 {
        assert(s.filter(p).to_multiset().add(s.filter(q).to_multiset()) =~= s.to_multiset());
    } else {
        let d = s.drop_last();
        let x = s.last();
        lemma_filter_split(d, p, q);
        assert(d.push(x) =~= s);
        assert(s.filter(p).to_multiset().add(s.filter(q).to_multiset()) =~= s.to_multiset());
    }
}

/// A sweep partitions the pending messages: what it returns plus what it
/// leaves is, as a multiset, exactly what was there. No message is lost and
/// none is duplicated by a single sweep.
pub proof fn lemma_sweep_partition(s: Seq<Message>, now: u64, lifetime: u64)
    ensures
        expired_of(s, now, lifetime).to_multiset().add(live_of(s, now, lifetime).to_multiset())
            == s.to_multiset(),
{
    lemma_filter_split(
        s,
        |m: Message| is_expired(m, now, lifetime),
        |m: Message| !is_expired(m, now, lifetime),
    );
}

/// Threshold correctness: a sweep at `now` returns a pending message `m`
/// exactly when `now - m.date >= lifetime`, and leaves it pending exactly
/// when it has not yet expired. A message is never returned early.
pub proof fn lemma_threshold_correct(s: Seq<Message>, m: Message, now: u64, lifetime: u64)
    ensures
        expired_of(s, now, lifetime).contains(m) <==> (s.contains(m) && is_expired(
            m,
            now,
            lifetime,
        )),
        live_of(s, now, lifetime).contains(m) <==> (s.contains(m) && !is_expired(
            m,
            now,
            lifetime,
        )),
{
    broadcast use vstd::seq_lib::group_to_multiset_ensures;
    broadcast use vstd::multiset::group_multiset_axioms;

    let p = |mm: Message| is_expired(mm, now, lifetime);
    let q = |mm: Message| !is_expired(mm, now, lifetime);
    lemma_filter_split(s, p, q);
    if s.contains(m) {
        let i = choose|i: int| 0 <= i < s.len() && s[i] == m;
        if p(m) {
            s.lemma_filter_contains(p, i);
        } else {
            s.lemma_filter_contains(q, i);
        }
    }
    if s.filter(p).contains(m) {
        let j = choose|j: int| 0 <= j < s.filter(p).len() && s.filter(p)[j] == m;
        s.lemma_filter_pred(p, j);
        assert(s.to_multiset().count(m) > 0);
    }
    if s.filter(q).contains(m) {
        let j = choose|j: int| 0 <= j < s.filter(q).len() && s.filter(q)[j] == m;
        s.lemma_filter_pred(q, j);
        assert(s.to_multiset().count(m) > 0);
    }
}

/// No duplication: a message returned by a sweep is no longer pending, so a
/// later sweep — at any time whatsoever — cannot return it again.
pub proof fn lemma_no_duplication(
    s: Seq<Message>,
    m: Message,
    now1: u64,
    now2: u64,
    lifetime: u64,
)
    ensures
        expired_of(s, now1, lifetime).contains(m) ==> !expired_of(
            live_of(s, now1, lifetime),
            now2,
            lifetime,
        ).contains(m),
{
    if expired_of(s, now1, lifetime).contains(m) {
        lemma_threshold_correct(s, m, now1, lifetime);
        lemma_threshold_correct(live_of(s, now1, lifetime), m, now2, lifetime);
    }
}

/// The pending messages left after sweeping at each time of `times` in turn.
pub open spec fn live_after_sweeps(s: Seq<Message>, times: Seq<u64>, lifetime: u64) -> Seq<
    Message,
>
    decreases times.len(),
{
    if times.len() == 0 {
        s
    } else {
        live_after_sweeps(live_of(s, times[0], lifetime), times.drop_first(), lifetime)
    }
}

/// Everything returned, over all of them, by sweeps at each time of `times`.
pub open spec fn returned_by_sweeps(s: Seq<Message>, times: Seq<u64>, lifetime: u64) -> Multiset<
    Message,
>
    decreases times.len(),
{
    if times.len() == 0 {
        Multiset::empty()
    } else {
        expired_of(s, times[0], lifetime).to_multiset().add(
            returned_by_sweeps(live_of(s, times[0], lifetime), times.drop_first(), lifetime),
        )
    }
}

/// No loss, and each message exactly once: over any series of sweeps, what
/// was returned plus what is still pending is exactly what was pending at the
/// start; and once some sweep ran at a time by which `m` had expired, every
/// pending copy of `m` has been returned — so each inserted message is
/// eventually returned, by exactly one sweep, once enough time has passed.
pub proof fn lemma_no_loss(s: Seq<Message>, times: Seq<u64>, lifetime: u64, m: Message)
    ensures
        returned_by_sweeps(s, times, lifetime).add(
            live_after_sweeps(s, times, lifetime).to_multiset(),
        ) == s.to_multiset(),
        (exists|i: int| 0 <= i < times.len() && is_expired(m, times[i], lifetime))
            ==> returned_by_sweeps(s, times, lifetime).count(m) == s.to_multiset().count(m),
    decreases times.len(),
{
    broadcast use vstd::seq_lib::group_to_multiset_ensures;
    broadcast use vstd::multiset::group_multiset_axioms;

    if times.len() == 0 {
        assert(returned_by_sweeps(s, times, lifetime).add(
            live_after_sweeps(s, times, lifetime).to_multiset(),
        ) =~= s.to_multiset());
    } else {
        let t0 = times[0];
        let rest = times.drop_first();
        let s1 = live_of(s, t0, lifetime);
        lemma_no_loss(s1, rest, lifetime, m);
        lemma_sweep_partition(s, t0, lifetime);
        assert(returned_by_sweeps(s, times, lifetime).add(
            live_after_sweeps(s, times, lifetime).to_multiset(),
        ) =~= s.to_multiset());
        if exists|i: int| 0 <= i < times.len() && is_expired(m, times[i], lifetime) {
            let i = choose|i: int| 0 <= i < times.len() && is_expired(m, times[i], lifetime);
            if is_expired(m, t0, lifetime) {
                // Every copy of m left the store at the first sweep, and what
                // is absent can never be returned later.
                lemma_threshold_correct(s, m, t0, lifetime);
                assert(s1.to_multiset().count(m) == 0);
                assert(live_after_sweeps(s1, rest, lifetime).to_multiset().count(m) == 0);
                assert(returned_by_sweeps(s1, rest, lifetime).count(m) == 0);
            } else {
                assert(0 < i < times.len() && rest[i - 1] == times[i]);
            }
        }
    }
}

/// Relies on `std::time::SystemTime::now` and `duration_since(UNIX_EPOCH)`:
/// whole seconds since the Unix epoch, or 0 for a clock before the epoch.
/// Nothing more is stated; the clock may read anything.
#[verifier::external_body]
fn current_unix_time() -> (r: u64) {
    std::time::SystemTime::now()
        .duration_since(std::time::UNIX_EPOCH)
        .map(|d| d.as_secs())
        .unwrap_or(0)
}

} // verus!

