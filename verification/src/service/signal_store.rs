//! The signal store: one row per symbol and pair of slots.
//!
//! A computed signal whose identity is already stored overwrites that row;
//! one whose identity is new is inserted. [`SignalStore`] keeps the rows in
//! memory; [`plan_signal_write`] decides the same for a store that the caller
//! reaches through a gateway.

use crate::decimal::{Amount, Fixed};
use crate::model::arb_coin_price::{ArbCoinPrice, PriceRecord, Slot};
use crate::model::arb_diff_signal::{ArbDiffSignal, Signal};
use crate::service::diff_price::{
    compared_slots, get_diff_signal, lemma_scan_depends_on_time_only_in_time, optional_signal,
    signal_views, snapshot_signals,
};
use crate::service::price_cache::record_views;
use vstd::prelude::*;

verus! {

/// What to do with a computed signal in a store reached through a gateway.
#[derive(Debug, Clone, PartialEq, Eq)]
pub enum SignalWrite {
    /// No row has the signal's identity: insert it as it is.
    Insert(ArbDiffSignal),
    /// A row has the signal's identity: write this row back under its id.
    Update(ArbDiffSignal),
}

/// The mathematical content of a [`SignalWrite`].
pub enum PlannedWrite {
    Insert(Signal),
    Update(Signal),
}

impl View for SignalWrite {
    type V = PlannedWrite;

    open spec fn view(&self) -> PlannedWrite {
        match self {
            SignalWrite::Insert(row) => PlannedWrite::Insert(row@),
            SignalWrite::Update(row) => PlannedWrite::Update(row@),
        }
    }
}

/// The write for a computed signal, given the row that the store holds
/// under its identity, if any.
pub open spec fn planned(existing: Option<Signal>, computed: Signal) -> PlannedWrite {
    match existing {
        Some(row) => PlannedWrite::Update(row.overwritten_by(computed)),
        None => PlannedWrite::Insert(computed),
    }
}

/// Decides what to write for a computed signal, given the row that the
/// store returned for its identity. A stored row is updated under its own id
/// and keeps its creation time; only where there is none is a row inserted.
pub fn plan_signal_write(existing: Option<ArbDiffSignal>, computed: ArbDiffSignal) -> (write:
    SignalWrite)
    ensures
        write@ == planned(optional_signal(existing), computed@),
{
    match existing {
        Some(row) => SignalWrite::Update(row.overwritten_by(computed)),
        None => SignalWrite::Insert(computed),
    }
}

/// Whether some row has the identity of `key`.
pub open spec fn has_key(rows: Seq<Signal>, key: Signal) -> bool {
    exists|i: int| 0 <= i < rows.len() && (#[trigger] rows[i]).same_key(key)
}

/// The place of the row with the identity of `key`, where there is one.
pub open spec fn key_position(rows: Seq<Signal>, key: Signal) -> int {
    choose|i: int| 0 <= i < rows.len() && (#[trigger] rows[i]).same_key(key)
}

/// The id of the row with the identity of `key`, where there is one.
pub open spec fn signal_id(rows: Seq<Signal>, key: Signal) -> Option<i64> {
    if has_key(rows, key) {
        Some(rows[key_position(rows, key)].id)
    } else {
        None
    }
}

/// The rows are in order: no two have the same identity, and each row's id
/// is its place, counted from one.
pub open spec fn well_kept(rows: Seq<Signal>) -> bool {
    &&& forall|i: int, j: int|
        0 <= i < j < rows.len() ==> !(#[trigger] rows[i]).same_key(#[trigger] rows[j])
    &&& forall|i: int| 0 <= i < rows.len() ==> (#[trigger] rows[i]).id == i + 1
}

/// The rows after a computed signal is stored. Where a row has its identity,
/// that row takes the computed values and keeps its id and creation time.
/// Otherwise the signal is put last under the next id; a store that has run
/// out of ids stays as it is.
pub open spec fn stored(rows: Seq<Signal>, computed: Signal) -> Seq<Signal> {
    if has_key(rows, computed) {
        let at = key_position(rows, computed);
        rows.update(at, rows[at].overwritten_by(computed))
    } else if rows.len() < i64::MAX {
        rows.push(Signal { id: (rows.len() + 1) as i64, ..computed })
    } else {
        rows
    }
}

/// The rows after a sequence of computed signals is stored, in order.
pub open spec fn stored_all(rows: Seq<Signal>, computed: Seq<Signal>) -> Seq<Signal>
    decreases computed.len(),
{
    if computed.len() == 0 {
        rows
    } else {
        stored(stored_all(rows, computed.drop_last()), computed.last())
    }
}

/// The signals found so far, in memory.
pub struct SignalStore {
    rows: Vec<ArbDiffSignal>,
}

impl View for SignalStore {
    type V = Seq<Signal>;

    closed spec fn view(&self) -> Seq<Signal> {
        signal_views(self.rows@)
    }
}

impl SignalStore {
    #[verifier::type_invariant]
    spec fn in_order(self) -> bool {
        well_kept(self@)
    }

    /// An empty store.
    pub fn new() -> (store: SignalStore)
        ensures
            store@ == Seq::<Signal>::empty(),
    {
        let store = SignalStore { rows: Vec::new() };
        assert(store@ =~= Seq::<Signal>::empty());
        store
    }

    /// The number of rows.
    pub fn len(&self) -> (n: usize)
        ensures
            n == self@.len(),
    {
        self.rows.len()
    }

    /// The place of the row with the identity of `key`, where there is one.
    fn find(&self, key: &ArbDiffSignal) -> (at: Option<usize>)
        ensures
            well_kept(self@),
            match at {
                Some(i) => has_key(self@, key@) && i == key_position(self@, key@) && i
                    < self.rows.len(),
                None => !has_key(self@, key@),
            },
    {
        proof {
            use_type_invariant(self);
        }
        let mut i: usize = 0;
        while i < self.rows.len()
            invariant
                i <= self.rows.len(),
                well_kept(self@),
                forall|k: int| 0 <= k < i ==> !(#[trigger] self@[k]).same_key(key@),
            decreases self.rows.len() - i,
        {
            if self.rows[i].has_key_of(key) {
                proof {
                    lemma_key_position_unique(self@, key@, i as int);
                }
                return Some(i);
            }
            i += 1;
        }
        None
    }

    /// The row with the identity of `key`, where there is one.
    pub fn get(&self, key: &ArbDiffSignal) -> (row: Option<ArbDiffSignal>)
        ensures
            well_kept(self@),
            match row {
                Some(r) => has_key(self@, key@) && r@ == self@[key_position(self@, key@)],
                None => !has_key(self@, key@),
            },
    {
        match self.find(key) {
            Some(i) => Some(self.rows[i].duplicate()),
            None => None,
        }
    }

    /// Stores a computed signal and returns the id of its row: the id the
    /// row already had where its identity was stored, a new one otherwise.
    /// `None` only where the identity is new and the store has run out of
    /// ids; the store is then unchanged.
    pub fn upsert(&mut self, computed: ArbDiffSignal) -> (id: Option<i64>)
        ensures
            final(self)@ == stored(old(self)@, computed@),
            id == signal_id(final(self)@, computed@),
            id is None <==> !has_key(old(self)@, computed@) && old(self)@.len() >= i64::MAX,
            well_kept(old(self)@),
            well_kept(final(self)@),
    {
        proof {
            use_type_invariant(&*self);
        }
        let ghost before = self@;
        proof {
            lemma_stored_well_kept(before, computed@);
        }
        match self.find(&computed) {
            Some(i) => {
                let id = self.rows[i].id;
                let existing = self.rows[i].duplicate();
                let row = existing.overwritten_by(computed);
                let mut rows: Vec<ArbDiffSignal> = Vec::new();
                std::mem::swap(&mut self.rows, &mut rows);
                rows.set(i, row);
                assert(signal_views(rows@) =~= stored(before, computed@));
                std::mem::swap(&mut self.rows, &mut rows);
                proof {
                    assert(self@[i as int].same_key(computed@));
                    lemma_key_position_unique(self@, computed@, i as int);
                }
                Some(id)
            },
            None => {
                if self.rows.len() as u64 >= i64::MAX as u64 {
                    return None;
                }
                let id = self.rows.len() as i64 + 1;
                let mut row = computed;
                row.id = id;
                let mut rows: Vec<ArbDiffSignal> = Vec::new();
                std::mem::swap(&mut self.rows, &mut rows);
                rows.push(row);
                assert(signal_views(rows@) =~= stored(before, computed@));
                std::mem::swap(&mut self.rows, &mut rows);
                proof {
                    assert(self@[before.len() as int].same_key(computed@));
                    lemma_key_position_unique(self@, computed@, before.len() as int);
                }
                Some(id)
            },
        }
    }

    /// Stores a sequence of computed signals, in order.
    pub fn upsert_all(&mut self, computed: Vec<ArbDiffSignal>)
        ensures
            final(self)@ == stored_all(old(self)@, signal_views(computed@)),
            well_kept(final(self)@),
    {
        proof {
            use_type_invariant(&*self);
        }
        let ghost start = self@;
        let ghost all = signal_views(computed@);
        let mut i: usize = 0;
        while i < computed.len()
            invariant
                i <= computed.len(),
                all == signal_views(computed@),
                well_kept(self@),
                self@ == stored_all(start, all.take(i as int)),
            decreases computed.len() - i,
        {
            proof {
                assert(all.take(i + 1).drop_last() =~= all.take(i as int));
                assert(all.take(i + 1).last() == computed[i as int]@);
            }
            let _ = self.upsert(computed[i].duplicate());
            i += 1;
        }
        assert(all.take(i as int) =~= all);
    }

    /// A copy of every row, in the order of their ids.
    pub fn rows(&self) -> (rows: Vec<ArbDiffSignal>)
        ensures
            signal_views(rows@) == self@,
            well_kept(self@),
    {
        proof {
            use_type_invariant(self);
        }
        let mut rows: Vec<ArbDiffSignal> = Vec::new();
        let mut i: usize = 0;
        while i < self.rows.len()
            invariant
                i <= self.rows.len(),
                signal_views(rows@) == self@.take(i as int),
            decreases self.rows.len() - i,
        {
            let ghost so_far = signal_views(rows@);
            rows.push(self.rows[i].duplicate());
            assert(signal_views(rows@) =~= so_far.push(self@[i as int]));
            assert(self@.take(i + 1) =~= self@.take(i as int).push(self@[i as int]));
            i += 1;
        }
        assert(self@.take(i as int) =~= self@);
        rows
    }
}

/// One cycle of the divergence scan over a snapshot of the price cache:
/// every record's compared slots are evaluated pair by pair against the
/// threshold, and each signal found is stored, updating the row of its
/// identity where there is one.
pub fn run_cycle(
    snapshot: &Vec<ArbCoinPrice>,
    store: &mut SignalStore,
    threshold: &Amount,
    now: &String,
)
    ensures
        final(store)@ == stored_all(
            old(store)@,
            snapshot_signals(
                record_views(snapshot@),
                snapshot.len() as int,
                compared_slots(),
                threshold@,
                now@,
            ),
        ),
        well_kept(final(store)@),
{
    let found = get_diff_signal(snapshot, threshold, now);
    store.upsert_all(found);
}

/// Among well-kept rows, a row with the identity of `key` stands at the
/// key's position and nowhere else.
pub proof fn lemma_key_position_unique(rows: Seq<Signal>, key: Signal, at: int)
    requires
        well_kept(rows),
        0 <= at < rows.len(),
        rows[at].same_key(key),
    ensures
        has_key(rows, key),
        key_position(rows, key) == at,
{
    let chosen = key_position(rows, key);
    assert(0 <= chosen < rows.len() && rows[chosen].same_key(key));
    if chosen < at {
        assert(!rows[chosen].same_key(rows[at]));
    } else if at < chosen {
        assert(!rows[at].same_key(rows[chosen]));
    }
}

/// Storing a signal keeps the rows in order.
pub proof fn lemma_stored_well_kept(rows: Seq<Signal>, computed: Signal)
    requires
        well_kept(rows),
    ensures
        well_kept(stored(rows, computed)),
{
    let after = stored(rows, computed);
    if has_key(rows, computed) {
        let at = key_position(rows, computed);
        assert forall|i: int, j: int| 0 <= i < j < after.len() implies !(#[trigger] after[i]).same_key(
            #[trigger] after[j],
        ) by {
            assert(after[i].same_key(rows[i]));
            assert(after[j].same_key(rows[j]));
            assert(!rows[i].same_key(rows[j]));
        }
        assert forall|i: int| 0 <= i < after.len() implies (#[trigger] after[i]).id == i + 1 by {
            assert(after[i].id == rows[i].id);
        }
    } else if rows.len() < i64::MAX {
        assert forall|i: int, j: int| 0 <= i < j < after.len() implies !(#[trigger] after[i]).same_key(
            #[trigger] after[j],
        ) by {
            if j < rows.len() {
                assert(!rows[i].same_key(rows[j]));
            } else {
                assert(after[i] == rows[i]);
                assert(after[j].same_key(computed));
                assert(!rows[i].same_key(computed));
            }
        }
        assert forall|i: int| 0 <= i < after.len() implies (#[trigger] after[i]).id == i + 1 by {
            if i < rows.len() {
                assert(after[i].id == rows[i].id);
            }
        }
    }
}

/// Idempotent upsert: storing a signal and then storing a recomputation of
/// the same pair updates the row that the first store wrote. The row count
/// does not grow and the row keeps its id and its creation time; its values
/// are those of the recomputation.
pub proof fn lemma_recompute_updates_same_row(rows: Seq<Signal>, first: Signal, second: Signal)
    requires
        well_kept(rows),
        second.same_key(first),
        has_key(rows, first) || rows.len() < i64::MAX,
    ensures
        has_key(stored(rows, first), first),
        stored(stored(rows, first), second).len() == stored(rows, first).len(),
        signal_id(stored(stored(rows, first), second), second) == signal_id(
            stored(rows, first),
            first,
        ),
        ({
            let once = stored(rows, first);
            let at = key_position(once, first);
            stored(once, second) == once.update(at, once[at].overwritten_by(second))
        }),
{
    let once = stored(rows, first);
    lemma_stored_well_kept(rows, first);
    let at = if has_key(rows, first) {
        key_position(rows, first)
    } else {
        rows.len() as int
    };
    assert(once[at].same_key(first));
    lemma_key_position_unique(once, first, at);
    assert(once[at].same_key(second));
    lemma_key_position_unique(once, second, at);
    let twice = stored(once, second);
    lemma_stored_well_kept(once, second);
    assert(twice[at].same_key(second));
    lemma_key_position_unique(twice, second, at);
}

/// Storing the same computation twice leaves the store as the first store
/// left it.
pub proof fn lemma_store_twice_is_once(rows: Seq<Signal>, computed: Signal)
    requires
        well_kept(rows),
        has_key(rows, computed) || rows.len() < i64::MAX,
    ensures
        stored(stored(rows, computed), computed) == stored(rows, computed),
{
    lemma_recompute_updates_same_row(rows, computed, computed);
    let once = stored(rows, computed);
    let at = key_position(once, computed);
    assert(once[at].overwritten_by(computed) == once[at]);
    assert(once.update(at, once[at]) =~= once);
}

/// Storing a signal leaves every row of another identity as it was.
pub proof fn lemma_stored_keeps_other_rows(rows: Seq<Signal>, computed: Signal, other: int)
    requires
        well_kept(rows),
        0 <= other < rows.len(),
        !rows[other].same_key(computed),
    ensures
        other < stored(rows, computed).len(),
        stored(rows, computed)[other] == rows[other],
{
    if has_key(rows, computed) {
        let at = key_position(rows, computed);
        assert(rows[at].same_key(computed));
    }
}

/// Whether every signal of the sequence has its identity among the rows.
pub open spec fn all_stored(rows: Seq<Signal>, computed: Seq<Signal>) -> bool {
    forall|k: int| 0 <= k < computed.len() ==> has_key(rows, #[trigger] computed[k])
}

/// Whether two sequences of rows have the same rows but for the computed
/// values: as many rows, and at each place the same identity, the same id
/// and the same creation time.
pub open spec fn same_rows(before: Seq<Signal>, after: Seq<Signal>) -> bool {
    &&& after.len() == before.len()
    &&& forall|i: int|
        0 <= i < before.len() ==> {
            &&& (#[trigger] after[i]).same_key(before[i])
            &&& after[i].id == before[i].id
            &&& after[i].created == before[i].created
        }
}

/// Rows of the same shape hold the same identities.
pub proof fn lemma_same_rows_same_keys(before: Seq<Signal>, after: Seq<Signal>, key: Signal)
    requires
        same_rows(before, after),
    ensures
        has_key(after, key) <==> has_key(before, key),
{
    if has_key(before, key) {
        let at = key_position(before, key);
        assert(after[at].same_key(key));
    }
    if has_key(after, key) {
        let at = key_position(after, key);
        assert(after[at].same_key(before[at]));
        assert(before[at].same_key(key));
    }
}

/// Storing a signal whose identity is stored adds no row and moves none.
pub proof fn lemma_stored_existing_adds_no_row(rows: Seq<Signal>, computed: Signal)
    requires
        well_kept(rows),
        has_key(rows, computed),
    ensures
        same_rows(rows, stored(rows, computed)),
{
    let at = key_position(rows, computed);
    let after = stored(rows, computed);
    assert forall|i: int| 0 <= i < rows.len() implies {
        &&& (#[trigger] after[i]).same_key(rows[i])
        &&& after[i].id == rows[i].id
        &&& after[i].created == rows[i].created
    } by {}
}

/// Storing signals whose identities are all stored adds no row and moves
/// none: every row keeps its place, its id and its creation time.
pub proof fn lemma_stored_all_existing_adds_no_row(rows: Seq<Signal>, computed: Seq<Signal>)
    requires
        well_kept(rows),
        all_stored(rows, computed),
    ensures
        same_rows(rows, stored_all(rows, computed)),
        well_kept(stored_all(rows, computed)),
    decreases computed.len(),
{
    if computed.len() > 0 {
        let earlier = computed.drop_last();
        assert forall|k: int| 0 <= k < earlier.len() implies has_key(rows, #[trigger] earlier[k]) by {
            assert(earlier[k] == computed[k]);
        }
        lemma_stored_all_existing_adds_no_row(rows, earlier);
        let middle = stored_all(rows, earlier);
        assert(has_key(rows, computed[computed.len() - 1]));
        lemma_same_rows_same_keys(rows, middle, computed.last());
        lemma_stored_existing_adds_no_row(middle, computed.last());
        lemma_stored_well_kept(middle, computed.last());
        let after = stored(middle, computed.last());
        assert forall|i: int| 0 <= i < rows.len() implies {
            &&& (#[trigger] after[i]).same_key(rows[i])
            &&& after[i].id == rows[i].id
            &&& after[i].created == rows[i].created
        } by {
            assert(after[i].same_key(middle[i]));
            assert(middle[i].same_key(rows[i]));
        }
    }
}

/// After a sequence of signals is stored, the identity of each is among the
/// rows, as long as the ids last.
pub proof fn lemma_stored_all_stores_all(rows: Seq<Signal>, computed: Seq<Signal>)
    requires
        well_kept(rows),
        rows.len() + computed.len() <= i64::MAX,
    ensures
        well_kept(stored_all(rows, computed)),
        stored_all(rows, computed).len() <= rows.len() + computed.len(),
        all_stored(stored_all(rows, computed), computed),
        forall|key: Signal| has_key(rows, key) ==> has_key(stored_all(rows, computed), key),
    decreases computed.len(),
{
    if computed.len() > 0 {
        let earlier = computed.drop_last();
        let last = computed.last();
        lemma_stored_all_stores_all(rows, earlier);
        let middle = stored_all(rows, earlier);
        let after = stored(middle, last);
        lemma_stored_well_kept(middle, last);
        assert forall|key: Signal| has_key(middle, key) implies has_key(after, key) by {
            let at = key_position(middle, key);
            assert(after[at].same_key(key));
        }
        let at = if has_key(middle, last) {
            key_position(middle, last)
        } else {
            middle.len() as int
        };
        assert(after[at].same_key(last));
        assert forall|k: int| 0 <= k < computed.len() implies has_key(
            after,
            #[trigger] computed[k],
        ) by {
            if k < earlier.len() {
                assert(earlier[k] == computed[k]);
                assert(has_key(middle, earlier[k]));
            }
        }
    }
}

/// Idempotent cycle: a second scan of the same records, at whatever time,
/// stores its signals into the rows that the first scan wrote. No row is
/// added, and each row keeps its place, its id and its creation time.
pub proof fn lemma_second_cycle_adds_no_row(
    rows: Seq<Signal>,
    records: Seq<PriceRecord>,
    slots: Seq<Slot>,
    threshold: Fixed,
    first: Seq<char>,
    second: Seq<char>,
)
    requires
        well_kept(rows),
        rows.len() + snapshot_signals(records, records.len() as int, slots, threshold, first).len()
            <= i64::MAX,
    ensures
        same_rows(
            stored_all(
                rows,
                snapshot_signals(records, records.len() as int, slots, threshold, first),
            ),
            stored_all(
                stored_all(
                    rows,
                    snapshot_signals(records, records.len() as int, slots, threshold, first),
                ),
                snapshot_signals(records, records.len() as int, slots, threshold, second),
            ),
        ),
{
    let found = snapshot_signals(records, records.len() as int, slots, threshold, first);
    let again = snapshot_signals(records, records.len() as int, slots, threshold, second);
    let once = stored_all(rows, found);
    lemma_stored_all_stores_all(rows, found);
    lemma_scan_depends_on_time_only_in_time(
        records,
        records.len() as int,
        slots,
        threshold,
        first,
        second,
    );
    assert forall|k: int| 0 <= k < again.len() implies has_key(once, #[trigger] again[k]) by {
        assert(has_key(once, found[k]));
        let at = key_position(once, found[k]);
        assert(once[at].same_key(again[k]));
    }
    lemma_stored_all_existing_adds_no_row(once, again);
}

} // verus!
