//! The server-side history set for one account: an idempotent, append-only
//! store with tombstoned deletions and delta-sync selection.
//!
//! Entries are kept in insertion order. The server is the sole source of
//! truth for the merged, deduplicated set; re-submitting an id is a no-op,
//! and deleting an entry retains a tombstone so other devices can learn of
//! the deletion from a [`HistoryStore::status`] snapshot.

use vstd::prelude::*;
use crate::api::{
    AddHistoryModel, AddHistoryRequest, CountResponse, CursorModel, DeleteHistoryRequest,
    StatusResponse, SyncHistoryRequest, SyncHistoryResponse, Timestamp,
};
use crate::error::ServiceError;

verus! {

/// One row of the history set: the client-supplied entry plus the
/// server-observed insertion time and the tombstone flag.
#[derive(Debug)]
pub struct StoredEntry {
    pub id: String,
    pub timestamp: Timestamp,
    pub data: String,
    pub hostname: String,
    pub inserted_at: Timestamp,
    pub deleted: bool,
}

/// The ghost model of a [`StoredEntry`].
pub ghost struct EntryModel {
    pub id: Seq<char>,
    pub timestamp: int,
    pub data: Seq<char>,
    pub hostname: Seq<char>,
    pub inserted_at: int,
    pub deleted: bool,
}

impl View for StoredEntry {
    type V = EntryModel;

    open spec fn view(&self) -> EntryModel {
        EntryModel {
            id: self.id@,
            timestamp: self.timestamp@,
            data: self.data@,
            hostname: self.hostname@,
            inserted_at: self.inserted_at@,
            deleted: self.deleted,
        }
    }
}

/// Whether some entry (live or tombstoned) carries `id`.
pub open spec fn has_id(s: Seq<EntryModel>, id: Seq<char>) -> bool {
    exists|i: int| 0 <= i < s.len() && #[trigger] s[i].id == id
}

/// Whether a live (not tombstoned) entry carries `id`.
pub open spec fn has_live_id(s: Seq<EntryModel>, id: Seq<char>) -> bool {
    exists|i: int| 0 <= i < s.len() && #[trigger] s[i].id == id && !s[i].deleted
}

/// Ids are globally unique per account, across live and tombstoned entries.
pub open spec fn ids_unique(s: Seq<EntryModel>) -> bool {
    forall|i: int, j: int| #![trigger s[i], s[j]] 0 <= i < j < s.len() ==> s[i].id != s[j].id
}

/// Entries stand in insertion order: server-observed insertion times are
/// non-decreasing along the sequence.
pub open spec fn insertion_ordered(s: Seq<EntryModel>) -> bool {
    forall|i: int, j: int| #![trigger s[i], s[j]] 0 <= i < j < s.len() ==> s[i].inserted_at
        <= s[j].inserted_at
}

/// The insertion time the server assigns to a new entry: the arrival clock
/// reading, pushed forward to the current watermark when the clock lags it,
/// so the watermark never regresses.
pub open spec fn assigned_insertion(s: Seq<EntryModel>, now: int) -> int {
    if s.len() == 0 {
        now
    } else if s.last().inserted_at > now {
        s.last().inserted_at
    } else {
        now
    }
}

/// The row created for an accepted upsert.
pub open spec fn entry_of(r: AddHistoryModel, inserted_at: int) -> EntryModel {
    EntryModel {
        id: r.id,
        timestamp: r.timestamp,
        data: r.data,
        hostname: r.hostname,
        inserted_at: inserted_at,
        deleted: false,
    }
}

/// The effect of an upsert: a no-op when the id is already present, else an
/// append with the assigned insertion time.
pub open spec fn add_effect(s: Seq<EntryModel>, r: AddHistoryModel, now: int) -> Seq<EntryModel> {
    if has_id(s, r.id) {
        s
    } else {
        s.push(entry_of(r, assigned_insertion(s, now)))
    }
}

/// The effect of a deletion: the entry carrying `id` is tombstoned, never
/// removed, so the audit trail and the reconciliation snapshot keep it.
pub open spec fn delete_effect(s: Seq<EntryModel>, id: Seq<char>) -> Seq<EntryModel> {
    s.map_values(
        |e: EntryModel|
            if e.id == id {
                EntryModel { deleted: true, ..e }
            } else {
                e
            },
    )
}

/// Whether a cursor selects an entry: live, inserted after the client's
/// server-time watermark, an event after the client's event-time bound, and
/// from the requested host (an empty host means no host filter).
pub open spec fn cursor_matches(e: EntryModel, c: CursorModel) -> bool {
    &&& !e.deleted
    &&& e.inserted_at > c.sync_ts
    &&& e.timestamp > c.history_ts
    &&& (c.host.len() == 0 || e.hostname == c.host)
}

/// The entries a cursor selects, in insertion order.
pub open spec fn sync_entries(s: Seq<EntryModel>, c: CursorModel) -> Seq<EntryModel>
    decreases s.len(),
{
    if s.len() == 0 {
        Seq::empty()
    } else {
        let init = sync_entries(s.drop_last(), c);
        if cursor_matches(s.last(), c) {
            init.push(s.last())
        } else {
            init
        }
    }
}

/// The opaque payloads a cursor selects, in insertion order.
pub open spec fn sync_payloads(s: Seq<EntryModel>, c: CursorModel) -> Seq<Seq<char>> {
    sync_entries(s, c).map_values(|e: EntryModel| e.data)
}

/// How many entries are live.
pub open spec fn live_count(s: Seq<EntryModel>) -> nat
    decreases s.len(),
{
    if s.len() == 0 {
        0
    } else {
        live_count(s.drop_last()) + (if s.last().deleted {
            0nat
        } else {
            1nat
        })
    }
}

/// The ids of the tombstoned entries, in insertion order.
pub open spec fn deleted_ids(s: Seq<EntryModel>) -> Seq<Seq<char>>
    decreases s.len(),
{
    if s.len() == 0 {
        Seq::empty()
    } else {
        let init = deleted_ids(s.drop_last());
        if s.last().deleted {
            init.push(s.last().id)
        } else {
            init
        }
    }
}

/// A live-entry count clamped into the wire field's range; the clamp is
/// unreachable for any set a machine can hold.
pub open spec fn count_to_i64(n: nat) -> int {
    if n <= i64::MAX {
        n as int
    } else {
        i64::MAX as int
    }
}

/// Upserts are idempotent: re-submitting an entry whose id is already
/// present — at whatever arrival time the retry happens to carry — leaves
/// the state exactly as the first upsert left it.
pub proof fn lemma_add_idempotent(s: Seq<EntryModel>, r: AddHistoryModel, now1: int, now2: int)
    ensures
        add_effect(add_effect(s, r, now1), r, now2) == add_effect(s, r, now1),
{
    if !has_id(s, r.id) {
        let s1 = add_effect(s, r, now1);
        assert(s1[s.len() as int].id == r.id);
        assert(has_id(s1, r.id));
    }
}

/// Every entry a cursor selects matches that cursor.
pub proof fn lemma_sync_entries_match(s: Seq<EntryModel>, c: CursorModel)
    ensures
        forall|e: EntryModel| #[trigger] sync_entries(s, c).contains(e) ==> cursor_matches(e, c),
    decreases s.len(),
{
    if s.len() > 0 {
        lemma_sync_entries_match(s.drop_last(), c);
        let init = sync_entries(s.drop_last(), c);
        assert forall|e: EntryModel| #[trigger]
            sync_entries(s, c).contains(e) implies cursor_matches(e, c) by {
            let sel = sync_entries(s, c);
            let i = choose|i: int| 0 <= i < sel.len() && sel[i] == e;
            if cursor_matches(s.last(), c) {
                if i < init.len() {
                    assert(init[i] == e);
                    assert(init.contains(e));
                } else {
                    assert(e == s.last());
                }
            } else {
                assert(init[i] == e);
                assert(init.contains(e));
            }
        }
    }
}

/// Monotonic sync: once a cursor's server-time bound has advanced at least
/// to the insertion time of everything an earlier call returned, a later
/// call returns none of those entries again — whatever state the store has
/// meanwhile reached, since the later call only selects entries inserted
/// strictly beyond that bound.
pub proof fn lemma_sync_monotonic(
    s1: Seq<EntryModel>,
    s2: Seq<EntryModel>,
    c1: CursorModel,
    c2: CursorModel,
)
    requires
        forall|e: EntryModel| #[trigger] sync_entries(s1, c1).contains(e) ==> e.inserted_at
            <= c2.sync_ts,
    ensures
        forall|e: EntryModel| #[trigger] sync_entries(s1, c1).contains(e) ==> !sync_entries(
            s2,
            c2,
        ).contains(e),
{
    lemma_sync_entries_match(s2, c2);
    assert forall|e: EntryModel| #[trigger]
        sync_entries(s1, c1).contains(e) implies !sync_entries(s2, c2).contains(e) by {
        if sync_entries(s2, c2).contains(e) {
            assert(cursor_matches(e, c2));
        }
    }
}

proof fn lemma_delete_effect_drop_last(s: Seq<EntryModel>, id: Seq<char>)
    requires
        s.len() > 0,
    ensures
        delete_effect(s, id).drop_last() == delete_effect(s.drop_last(), id),
{
    assert(delete_effect(s, id).drop_last() =~= delete_effect(s.drop_last(), id));
}

proof fn lemma_delete_effect_absent(s: Seq<EntryModel>, id: Seq<char>)
    requires
        forall|i: int| 0 <= i < s.len() ==> (#[trigger] s[i]).id != id,
    ensures
        delete_effect(s, id) == s,
{
    assert(delete_effect(s, id) =~= s);
}

/// Deletion reconciliation: tombstoning a live id shrinks the live count by
/// exactly one and surfaces the id among the snapshot's deleted ids.
pub proof fn lemma_delete_reconciles(s: Seq<EntryModel>, id: Seq<char>)
    requires
        ids_unique(s),
        has_live_id(s, id),
    ensures
        live_count(delete_effect(s, id)) == live_count(s) - 1,
        deleted_ids(delete_effect(s, id)).contains(id),
    decreases s.len(),
{
    let w = choose|i: int| 0 <= i < s.len() && #[trigger] s[i].id == id && !s[i].deleted;
    let d = delete_effect(s, id);
    let last = s.len() - 1;
    lemma_delete_effect_drop_last(s, id);
    assert(d.len() == s.len());
    assert(d[last] == if s[last].id == id {
        EntryModel { deleted: true, ..s[last] }
    } else {
        s[last]
    });
    if s[last].id == id {
        assert(w == last);
        assert(!s[last].deleted);
        assert forall|i: int| 0 <= i < s.drop_last().len() implies (#[trigger] s.drop_last()[i]).id
            != id by {
            assert(s.drop_last()[i] == s[i]);
            assert(s[i].id != s[last].id);
        }
        lemma_delete_effect_absent(s.drop_last(), id);
        assert(live_count(d) == live_count(s.drop_last()));
        assert(live_count(s) == live_count(s.drop_last()) + 1);
        let q = deleted_ids(d);
        assert(q == deleted_ids(d.drop_last()).push(id));
        assert(q[q.len() - 1] == id);
        assert(q.contains(id));
    } else {
        assert(w < last);
        assert(s.drop_last()[w] == s[w]);
        assert(has_live_id(s.drop_last(), id));
        assert forall|i: int, j: int| #![trigger s.drop_last()[i], s.drop_last()[j]]
            0 <= i < j < s.drop_last().len() implies s.drop_last()[i].id != s.drop_last()[j].id by {
            assert(s.drop_last()[i] == s[i]);
            assert(s.drop_last()[j] == s[j]);
        }
        lemma_delete_reconciles(s.drop_last(), id);
        assert(d[last] == s[last]);
        assert(live_count(d) == live_count(d.drop_last()) + (if s[last].deleted {
            0nat
        } else {
            1nat
        }));
        let q0 = deleted_ids(d.drop_last());
        assert(q0.contains(id));
        let i = choose|i: int| 0 <= i < q0.len() && q0[i] == id;
        if s[last].deleted {
            assert(deleted_ids(d) == q0.push(d[last].id));
            assert(q0.push(d[last].id)[i] == id);
            assert(deleted_ids(d).contains(id));
        } else {
            assert(deleted_ids(d) == q0);
        }
    }
}

/// The history set of one account.
pub struct HistoryStore {
    entries: Vec<StoredEntry>,
}

impl View for HistoryStore {
    type V = Seq<EntryModel>;

    closed spec fn view(&self) -> Seq<EntryModel> {
        self.entries@.map_values(|e: StoredEntry| e@)
    }
}

proof fn lemma_sync_entries_step(s: Seq<EntryModel>, c: CursorModel, i: int)
    requires
        0 <= i < s.len(),
    ensures
        sync_entries(s.subrange(0, i + 1), c) == if cursor_matches(s[i], c) {
            sync_entries(s.subrange(0, i), c).push(s[i])
        } else {
            sync_entries(s.subrange(0, i), c)
        },
{
    let t = s.subrange(0, i + 1);
    assert(t.drop_last() =~= s.subrange(0, i));
    assert(t.last() == s[i]);
}

proof fn lemma_live_count_step(s: Seq<EntryModel>, i: int)
    requires
        0 <= i < s.len(),
    ensures
        live_count(s.subrange(0, i + 1)) == live_count(s.subrange(0, i)) + (if s[i].deleted {
            0nat
        } else {
            1nat
        }),
{
    let t = s.subrange(0, i + 1);
    assert(t.drop_last() =~= s.subrange(0, i));
    assert(t.last() == s[i]);
}

proof fn lemma_deleted_ids_step(s: Seq<EntryModel>, i: int)
    requires
        0 <= i < s.len(),
    ensures
        deleted_ids(s.subrange(0, i + 1)) == if s[i].deleted {
            deleted_ids(s.subrange(0, i)).push(s[i].id)
        } else {
            deleted_ids(s.subrange(0, i))
        },
{
    let t = s.subrange(0, i + 1);
    assert(t.drop_last() =~= s.subrange(0, i));
    assert(t.last() == s[i]);
}

impl HistoryStore {
    /// The store's invariant: unique ids and non-decreasing insertion times.
    pub open spec fn wf(&self) -> bool {
        ids_unique(self@) && insertion_ordered(self@)
    }

    /// An empty history set.
    pub fn new() -> (r: HistoryStore)
        ensures
            r@ == Seq::<EntryModel>::empty(),
            r.wf(),
    {
        let r = HistoryStore { entries: Vec::new() };
        proof {
            assert(r@ =~= Seq::<EntryModel>::empty());
        }
        r
    }

    /// Upserts one entry, keyed on its client-generated id: a retry with an
    /// id already present (live or tombstoned) changes nothing, so the call
    /// is safe to repeat after a lost acknowledgement. An accepted entry is
    /// appended with the assigned server-observed insertion time, which
    /// advances the watermark that later sync calls filter against.
    pub fn add_history(&mut self, req: &AddHistoryRequest, now: Timestamp) -> (inserted: bool)
        requires
            old(self).wf(),
        ensures
            final(self).wf(),
            final(self)@ == add_effect(old(self)@, req@, now@),
            inserted == !has_id(old(self)@, req@.id),
    {
        let ghost s0 = self@;
        let n = self.entries.len();
        for i in 0..n
            invariant
                n == self.entries.len(),
                self@ == s0,
                s0 == old(self)@,
                ids_unique(s0) && insertion_ordered(s0),
                forall|j: int| 0 <= j < i ==> #[trigger] s0[j].id != req.id@,
        {
            if self.entries[i].id == req.id {
                proof {
                    assert(s0[i as int].id == req@.id);
                    assert(has_id(s0, req@.id));
                    assert(add_effect(s0, req@, now@) == s0);
                }
                return false;
            }
        }
        proof {
            assert(!has_id(s0, req@.id));
        }
        let now_nanos = now.unix_nanos;
        let last_ts: i64 = if self.entries.len() == 0 {
            now_nanos
        } else {
            self.entries[self.entries.len() - 1].inserted_at.unix_nanos
        };
        let ins = if last_ts > now_nanos {
            last_ts
        } else {
            now_nanos
        };
        proof {
            assert(ins as int == assigned_insertion(s0, now@));
        }
        let entry = StoredEntry {
            id: req.id.clone(),
            timestamp: req.timestamp,
            data: req.data.clone(),
            hostname: req.hostname.clone(),
            inserted_at: Timestamp { unix_nanos: ins },
            deleted: false,
        };
        self.entries.push(entry);
        proof {
            assert(self@ =~= s0.push(entry_of(req@, assigned_insertion(s0, now@))));
            assert forall|i: int, j: int| #![trigger self@[i], self@[j]]
                0 <= i < j < self@.len() implies self@[i].id != self@[j].id by {
                if j == self@.len() - 1 {
                    assert(self@[i] == s0[i]);
                    if self@[i].id == req@.id {
                        assert(has_id(s0, req@.id));
                    }
                }
            }
            assert forall|i: int, j: int| #![trigger self@[i], self@[j]]
                0 <= i < j < self@.len() implies self@[i].inserted_at <= self@[j].inserted_at by {
                if j == self@.len() - 1 && s0.len() > 0 {
                    assert(s0[i].inserted_at <= s0[s0.len() - 1].inserted_at);
                }
            }
        }
        true
    }

    /// Selects, in insertion order, the opaque payloads of the live entries
    /// that lie strictly beyond both cursor bounds and match the cursor's
    /// host filter. The selection is a pure read: replaying the same cursor
    /// against the same state returns the same payloads.
    pub fn sync_history(&self, req: &SyncHistoryRequest) -> (r: SyncHistoryResponse)
        ensures
            r@ == sync_payloads(self@, req@),
    {
        let ghost s = self@;
        let ghost c = req@;
        let mut out: Vec<String> = Vec::new();
        let n = self.entries.len();
        for i in 0..n
            invariant
                n == self.entries.len(),
                s == self@,
                c == req@,
                out@.map_values(|p: String| p@) == sync_payloads(s.subrange(0, i as int), c),
        {
            let e = &self.entries[i];
            let selected = !e.deleted && e.inserted_at.unix_nanos > req.sync_ts.unix_nanos
                && e.timestamp.unix_nanos > req.history_ts.unix_nanos && (
            req.host.as_str().is_empty() || e.hostname == req.host);
            proof {
                assert(e@ == s[i as int]);
                assert(selected == cursor_matches(s[i as int], c));
                lemma_sync_entries_step(s, c, i as int);
            }
            if selected {
                let ghost out0 = out@;
                out.push(e.data.clone());
                proof {
                    assert(out@.map_values(|p: String| p@) =~= out0.map_values(|p: String| p@)
                        .push(s[i as int].data));
                }
            }
        }
        proof {
            assert(s.subrange(0, n as int) =~= s);
        }
        SyncHistoryResponse { history: out }
    }

    /// A reconciliation snapshot: the live-entry count and the ids of every
    /// tombstoned entry, in insertion order. A client compares these against
    /// its local set to detect missed deletions or drift without a full
    /// re-sync. A pure read.
    pub fn status(&self) -> (r: StatusResponse)
        ensures
            r.count == count_to_i64(live_count(self@)),
            r.deleted@.map_values(|p: String| p@) == deleted_ids(self@),
    {
        let ghost s = self@;
        let mut live: usize = 0;
        let mut deleted: Vec<String> = Vec::new();
        let n = self.entries.len();
        for i in 0..n
            invariant
                n == self.entries.len(),
                s == self@,
                live <= i,
                live == live_count(s.subrange(0, i as int)),
                deleted@.map_values(|p: String| p@) == deleted_ids(s.subrange(0, i as int)),
        {
            let e = &self.entries[i];
            proof {
                assert(e@ == s[i as int]);
                lemma_live_count_step(s, i as int);
                lemma_deleted_ids_step(s, i as int);
            }
            if e.deleted {
                let ghost d0 = deleted@;
                deleted.push(e.id.clone());
                proof {
                    assert(deleted@.map_values(|p: String| p@) =~= d0.map_values(|p: String| p@)
                        .push(s[i as int].id));
                }
            } else {
                live = live + 1;
            }
        }
        proof {
            assert(s.subrange(0, n as int) =~= s);
        }
        let live64: u64 = live as u64;
        let count: i64 = if live64 <= 0x7fff_ffff_ffff_ffff {
            live64 as i64
        } else {
            i64::MAX
        };
        StatusResponse { count, deleted }
    }

    /// The authoritative live-entry count. A pure read.
    pub fn count(&self) -> (r: CountResponse)
        ensures
            r.count == count_to_i64(live_count(self@)),
    {
        let status = self.status();
        CountResponse { count: status.count }
    }

    /// Tombstones the entry carrying the named id. Reports `NotFound`, and
    /// changes nothing, when no live entry carries it — deleting an already
    /// deleted or unknown id is idempotent, not a corruption of state.
    pub fn delete_history(&mut self, req: &DeleteHistoryRequest) -> (r: Result<(), ServiceError>)
        requires
            old(self).wf(),
        ensures
            final(self).wf(),
            match r {
                Ok(_) => has_live_id(old(self)@, req.client_id@) && final(self)@ == delete_effect(
                    old(self)@,
                    req.client_id@,
                ),
                Err(e) => e == ServiceError::NotFound && !has_live_id(old(self)@, req.client_id@)
                    && final(self)@ == old(self)@,
            },
    {
        let ghost s0 = self@;
        let n = self.entries.len();
        for i in 0..n
            invariant
                n == self.entries.len(),
                self@ == s0,
                s0 == old(self)@,
                ids_unique(s0) && insertion_ordered(s0),
                forall|j: int| 0 <= j < i ==> #[trigger] s0[j].id != req.client_id@,
        {
            if self.entries[i].id == req.client_id {
                proof {
                    assert(s0[i as int].id == req.client_id@);
                }
                if self.entries[i].deleted {
                    proof {
                        assert forall|k: int| 0 <= k < s0.len() && #[trigger] s0[k].id
                            == req.client_id@ implies s0[k].deleted by {
                            if k != i {
                                assert(s0[k].id != s0[i as int].id);
                            }
                        }
                    }
                    return Err(ServiceError::NotFound);
                }
                self.entries[i].deleted = true;
                proof {
                    assert forall|k: int| 0 <= k < s0.len() implies #[trigger] self@[k]
                        == delete_effect(s0, req.client_id@)[k] by {
                        if k != i {
                            assert(s0[k].id != s0[i as int].id);
                        }
                    }
                    assert(self@ =~= delete_effect(s0, req.client_id@));
                }
                return Ok(());
            }
        }
        proof {
            assert(!has_live_id(s0, req.client_id@));
        }
        Err(ServiceError::NotFound)
    }
}

} // verus!
