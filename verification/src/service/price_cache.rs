//! The latest-price cache: one record per symbol, written by ticks.
//!
//! The cache is the source of truth for the divergence scan. Durable storage
//! mirrors it tick by tick; what to write there is planned here and carried
//! out by the caller.

use crate::decimal::{Amount, Fixed};
use crate::model::arb_coin_price::{ArbCoinPrice, PriceRecord, Slot};
use crate::service::{tick_views, NormalizedTick, Tick};
use vstd::prelude::*;

verus! {

/// Why a tick could not be written.
#[derive(Debug, Clone, Copy, PartialEq, Eq, Structural)]
pub enum CacheError {
    /// The price record has no field for the slot that the tick names.
    UnknownSlot,
}

/// The mathematical content of a sequence of records.
pub open spec fn record_views(records: Seq<ArbCoinPrice>) -> Seq<PriceRecord> {
    Seq::new(records.len(), |i: int| records[i]@)
}

/// No two records are of the same symbol.
pub open spec fn distinct_symbols(records: Seq<PriceRecord>) -> bool {
    forall|i: int, j: int|
        0 <= i < j < records.len() ==> (#[trigger] records[i]).symbol != (
        #[trigger] records[j]).symbol
}

/// Whether some record is of the symbol.
pub open spec fn holds(records: Seq<PriceRecord>, symbol: Seq<char>) -> bool {
    exists|i: int| 0 <= i < records.len() && (#[trigger] records[i]).symbol == symbol
}

/// The place of the symbol's record, where there is one.
pub open spec fn position(records: Seq<PriceRecord>, symbol: Seq<char>) -> int {
    choose|i: int| 0 <= i < records.len() && (#[trigger] records[i]).symbol == symbol
}

/// The symbol's record, where there is one.
pub open spec fn lookup(records: Seq<PriceRecord>, symbol: Seq<char>) -> Option<PriceRecord> {
    if holds(records, symbol) {
        Some(records[position(records, symbol)])
    } else {
        None
    }
}

/// The records after a tick. A tick for a slot without a field changes
/// nothing. Otherwise the symbol's record takes the price in the named slot
/// and the update time; where the symbol had no record, one is first made
/// with every slot at zero and put last.
pub open spec fn upserted(
    records: Seq<PriceRecord>,
    symbol: Seq<char>,
    slot: Slot,
    price: Fixed,
    now: Seq<char>,
) -> Seq<PriceRecord> {
    if !slot.recorded() {
        records
    } else if holds(records, symbol) {
        let at = position(records, symbol);
        records.update(at, records[at].with_price(slot, price, now))
    } else {
        records.push(PriceRecord::fresh(symbol, slot.platform(), now).with_price(slot, price, now))
    }
}

/// The records after a sequence of ticks, each written at `now`, in order.
pub open spec fn applied(records: Seq<PriceRecord>, ticks: Seq<Tick>, now: Seq<char>) -> Seq<
    PriceRecord,
>
    decreases ticks.len(),
{
    if ticks.len() == 0 {
        records
    } else {
        let tick = ticks.last();
        upserted(
            applied(records, ticks.drop_last(), now),
            tick.symbol,
            Slot::at(tick.platform, tick.market),
            tick.price,
            now,
        )
    }
}

/// What a write reports: the symbol's record as it stands after the write,
/// or that the slot has no field.
pub open spec fn reported(records: Seq<PriceRecord>, symbol: Seq<char>, slot: Slot) -> Result<
    PriceRecord,
    CacheError,
> {
    if slot.recorded() && holds(records, symbol) {
        Ok(records[position(records, symbol)])
    } else {
        Err(CacheError::UnknownSlot)
    }
}

/// The view of a write's outcome.
pub open spec fn outcome_view(outcome: Result<ArbCoinPrice, CacheError>) -> Result<
    PriceRecord,
    CacheError,
> {
    match outcome {
        Ok(record) => Ok(record@),
        Err(e) => Err(e),
    }
}

/// The latest prices of every symbol seen so far, one record per symbol, in
/// the order in which the symbols first appeared.
pub struct PriceCache {
    records: Vec<ArbCoinPrice>,
}

impl View for PriceCache {
    type V = Seq<PriceRecord>;

    closed spec fn view(&self) -> Seq<PriceRecord> {
        record_views(self.records@)
    }
}

impl PriceCache {
    #[verifier::type_invariant]
    spec fn one_record_per_symbol(self) -> bool {
        distinct_symbols(self@)
    }

    /// An empty cache.
    pub fn new() -> (cache: PriceCache)
        ensures
            cache@ == Seq::<PriceRecord>::empty(),
    {
        let cache = PriceCache { records: Vec::new() };
        assert(cache@ =~= Seq::<PriceRecord>::empty());
        cache
    }

    /// The number of symbols.
    pub fn len(&self) -> (n: usize)
        ensures
            n == self@.len(),
    {
        self.records.len()
    }

    /// The place of the symbol's record, where there is one.
    fn find(&self, symbol: &String) -> (at: Option<usize>)
        ensures
            distinct_symbols(self@),
            match at {
                Some(i) => holds(self@, symbol@) && i == position(self@, symbol@) && i
                    < self.records.len(),
                None => !holds(self@, symbol@),
            },
    {
        proof {
            use_type_invariant(self);
        }
        let mut i: usize = 0;
        while i < self.records.len()
            invariant
                i <= self.records.len(),
                distinct_symbols(self@),
                forall|k: int| 0 <= k < i ==> (#[trigger] self@[k]).symbol != symbol@,
            decreases self.records.len() - i,
        {
            if self.records[i].symbol == *symbol {
                proof {
                    lemma_position_unique(self@, symbol@, i as int);
                }
                return Some(i);
            }
            i += 1;
        }
        None
    }

    /// The symbol's record, where there is one.
    pub fn get(&self, symbol: &String) -> (record: Option<ArbCoinPrice>)
        ensures
            distinct_symbols(self@),
            match record {
                Some(r) => Some(r@) == lookup(self@, symbol@),
                None => lookup(self@, symbol@) is None,
            },
    {
        match self.find(symbol) {
            Some(i) => Some(self.records[i].duplicate()),
            None => None,
        }
    }

    /// Writes a tick: the read-modify-write of one slot of one symbol.
    ///
    /// Where the symbol has no record yet, one is made with every slot at
    /// zero. Then exactly the named slot and the update time are set; every
    /// other slot, and every other symbol's record, stays as it was. The
    /// symbol's record after the write is returned. A slot without a field is
    /// refused and nothing changes.
    pub fn upsert(&mut self, symbol: &String, slot: Slot, price: Amount, now: &String) -> (outcome:
        Result<ArbCoinPrice, CacheError>)
        ensures
            final(self)@ == upserted(old(self)@, symbol@, slot, price@, now@),
            outcome_view(outcome) == reported(final(self)@, symbol@, slot),
            outcome is Ok <==> slot.recorded(),
            distinct_symbols(old(self)@),
            distinct_symbols(final(self)@),
    {
        proof {
            use_type_invariant(&*self);
        }
        if !slot.is_recorded() {
            return Err(CacheError::UnknownSlot);
        }
        let ghost before = self@;
        match self.find(symbol) {
            Some(i) => {
                let mut record = self.records[i].duplicate();
                record.set_price(slot, price, now.clone());
                let copy = record.duplicate();
                let mut records: Vec<ArbCoinPrice> = Vec::new();
                proof {
                    lemma_upsert_keeps_distinct(before, symbol@, slot, price@, now@);
                }
                std::mem::swap(&mut self.records, &mut records);
                records.set(i, record);
                assert(record_views(records@) =~= before.update(
                    i as int,
                    before[i as int].with_price(slot, price@, now@),
                ));
                std::mem::swap(&mut self.records, &mut records);
                proof {
                    lemma_upsert_holds(before, symbol@, slot, price@, now@);
                    lemma_position_unique(self@, symbol@, i as int);
                }
                Ok(copy)
            },
            None => {
                let mut record = ArbCoinPrice::new(symbol.clone(), slot.platform_of(), now.clone());
                record.set_price(slot, price, now.clone());
                let copy = record.duplicate();
                let mut records: Vec<ArbCoinPrice> = Vec::new();
                proof {
                    lemma_upsert_keeps_distinct(before, symbol@, slot, price@, now@);
                }
                std::mem::swap(&mut self.records, &mut records);
                records.push(record);
                assert(record_views(records@) =~= before.push(
                    PriceRecord::fresh(symbol@, slot.platform(), now@).with_price(
                        slot,
                        price@,
                        now@,
                    ),
                ));
                std::mem::swap(&mut self.records, &mut records);
                proof {
                    assert(self@ =~= before.push(
                        PriceRecord::fresh(symbol@, slot.platform(), now@).with_price(
                            slot,
                            price@,
                            now@,
                        ),
                    ));
                    lemma_upsert_keeps_distinct(before, symbol@, slot, price@, now@);
                    lemma_upsert_holds(before, symbol@, slot, price@, now@);
                    lemma_position_unique(self@, symbol@, before.len() as int);
                }
                Ok(copy)
            },
        }
    }

    /// Writes a sequence of ticks, each at `now`, in order, and reports for
    /// each the symbol's record after its write, or that its slot has no
    /// field.
    pub fn apply_ticks(&mut self, ticks: &Vec<NormalizedTick>, now: &String) -> (outcomes: Vec<
        Result<ArbCoinPrice, CacheError>,
    >)
        ensures
            final(self)@ == applied(old(self)@, tick_views(ticks@), now@),
            distinct_symbols(final(self)@),
            outcomes.len() == ticks.len(),
            forall|k: int|
                0 <= k < ticks.len() ==> outcome_view(#[trigger] outcomes[k]) == reported(
                    applied(old(self)@, tick_views(ticks@).take(k + 1), now@),
                    ticks[k].symbol@,
                    Slot::at(ticks[k].platform, ticks[k].market),
                ),
    {
        proof {
            use_type_invariant(&*self);
        }
        let ghost start = self@;
        let ghost all = tick_views(ticks@);
        let mut outcomes: Vec<Result<ArbCoinPrice, CacheError>> = Vec::new();
        let mut i: usize = 0;
        while i < ticks.len()
            invariant
                i <= ticks.len(),
                all == tick_views(ticks@),
                outcomes.len() == i,
                self@ == applied(start, all.take(i as int), now@),
                distinct_symbols(self@),
                forall|k: int|
                    0 <= k < i ==> outcome_view(#[trigger] outcomes[k]) == reported(
                        applied(start, all.take(k + 1), now@),
                        ticks[k].symbol@,
                        Slot::at(ticks[k].platform, ticks[k].market),
                    ),
            decreases ticks.len() - i,
        {
            let tick = &ticks[i];
            let slot = Slot::of(tick.platform, tick.market);
            proof {
                assert(all.take(i + 1).drop_last() =~= all.take(i as int));
                assert(all.take(i + 1).last() == tick@);
            }
            let outcome = self.upsert(&tick.symbol, slot, tick.price, now);
            outcomes.push(outcome);
            i += 1;
        }
        assert(all.take(i as int) =~= all);
        outcomes
    }

    /// A copy of every record, in the order in which the symbols first
    /// appeared. Each record is whole: it is the state after some tick, never
    /// one in the middle of a write.
    pub fn snapshot(&self) -> (records: Vec<ArbCoinPrice>)
        ensures
            record_views(records@) == self@,
            distinct_symbols(self@),
    {
        proof {
            use_type_invariant(self);
        }
        let mut records: Vec<ArbCoinPrice> = Vec::new();
        let mut i: usize = 0;
        while i < self.records.len()
            invariant
                i <= self.records.len(),
                record_views(records@) == self@.take(i as int),
            decreases self.records.len() - i,
        {
            let ghost before = record_views(records@);
            records.push(self.records[i].duplicate());
            assert(record_views(records@) =~= before.push(self@[i as int]));
            assert(self@.take(i + 1) =~= self@.take(i as int).push(self@[i as int]));
            i += 1;
        }
        assert(self@.take(i as int) =~= self@);
        records
    }
}

/// What to write to durable storage after a tick, so that it mirrors the
/// cache.
#[derive(Debug, Clone, PartialEq, Eq)]
pub enum PriceWrite {
    /// Storage has no record of the symbol: insert the cache's record.
    Insert(ArbCoinPrice),
    /// Storage has a record of the symbol under `id`: set one slot and the
    /// update time there.
    Update { id: i64, slot: Slot, price: Amount, updated: String },
}

/// Plans the write that mirrors a tick to durable storage, given the id
/// under which storage holds the symbol's record, if it holds one, and the
/// cache's record after the tick. A stored record has the tick's slot and
/// update time set under its id; where there is none, the cache's record is
/// inserted whole. A slot without a field has nothing to write.
pub fn plan_price_write(stored_id: Option<i64>, record: &ArbCoinPrice, slot: Slot) -> (write:
    Option<PriceWrite>)
    ensures
        match write {
            Some(PriceWrite::Update { id, slot: named, price, updated }) => {
                &&& stored_id == Some(id)
                &&& named == slot
                &&& record@.price(slot) == Some(price@)
                &&& updated@ == record@.updated
            },
            Some(PriceWrite::Insert(row)) => {
                &&& stored_id is None
                &&& slot.recorded()
                &&& row@ == record@
            },
            None => !slot.recorded(),
        },
{
    match record.price(slot) {
        Some(price) => match stored_id {
            Some(id) => Some(PriceWrite::Update { id, slot, price, updated: record.updated.clone() }),
            None => Some(PriceWrite::Insert(record.duplicate())),
        },
        None => None,
    }
}

/// Among records of distinct symbols, a record of the symbol stands at the
/// symbol's position and nowhere else.
pub proof fn lemma_position_unique(records: Seq<PriceRecord>, symbol: Seq<char>, at: int)
    requires
        distinct_symbols(records),
        0 <= at < records.len(),
        records[at].symbol == symbol,
    ensures
        holds(records, symbol),
        position(records, symbol) == at,
{
    let chosen = position(records, symbol);
    assert(0 <= chosen < records.len() && records[chosen].symbol == symbol);
    if chosen < at {
        assert(records[chosen].symbol != records[at].symbol);
    } else if at < chosen {
        assert(records[at].symbol != records[chosen].symbol);
    }
}

/// A write keeps the cache at one record per symbol.
pub proof fn lemma_upsert_keeps_distinct(
    records: Seq<PriceRecord>,
    symbol: Seq<char>,
    slot: Slot,
    price: Fixed,
    now: Seq<char>,
)
    requires
        distinct_symbols(records),
    ensures
        distinct_symbols(upserted(records, symbol, slot, price, now)),
{
    let after = upserted(records, symbol, slot, price, now);
    if slot.recorded() {
        if holds(records, symbol) {
            let at = position(records, symbol);
            assert forall|i: int, j: int| 0 <= i < j < after.len() implies (#[trigger] after[i]).symbol
                != (#[trigger] after[j]).symbol by {
                assert(after[i].symbol == records[i].symbol);
                assert(after[j].symbol == records[j].symbol);
            }
        } else {
            assert forall|i: int, j: int| 0 <= i < j < after.len() implies (#[trigger] after[i]).symbol
                != (#[trigger] after[j]).symbol by {
                if j < records.len() {
                    assert(after[i].symbol == records[i].symbol);
                    assert(after[j].symbol == records[j].symbol);
                } else {
                    assert(after[i] == records[i]);
                    assert(after[j].symbol == symbol);
                }
            }
        }
    }
}

/// After a write to a recorded slot the symbol has a record.
pub proof fn lemma_upsert_holds(
    records: Seq<PriceRecord>,
    symbol: Seq<char>,
    slot: Slot,
    price: Fixed,
    now: Seq<char>,
)
    requires
        slot.recorded(),
    ensures
        holds(upserted(records, symbol, slot, price, now), symbol),
{
    let after = upserted(records, symbol, slot, price, now);
    if holds(records, symbol) {
        let at = position(records, symbol);
        assert(after[at].symbol == symbol);
    } else {
        assert(after[records.len() as int].symbol == symbol);
    }
}

/// The price that the records hold for a symbol in a slot: none where the
/// symbol has no record or the slot no field.
pub open spec fn price_in(records: Seq<PriceRecord>, symbol: Seq<char>, slot: Slot) -> Option<
    Fixed,
> {
    match lookup(records, symbol) {
        Some(record) => record.price(slot),
        None => None,
    }
}

/// The price of the last tick in the sequence that names the symbol and the
/// slot, where there is one.
pub open spec fn last_price(ticks: Seq<Tick>, symbol: Seq<char>, slot: Slot) -> Option<Fixed>
    decreases ticks.len(),
{
    if ticks.len() == 0 {
        None
    } else if ticks.last().symbol == symbol && Slot::at(ticks.last().platform, ticks.last().market)
        == slot {
        Some(ticks.last().price)
    } else {
        last_price(ticks.drop_last(), symbol, slot)
    }
}

/// Whether some tick in the sequence names the symbol and a slot that has a
/// field.
pub open spec fn written(ticks: Seq<Tick>, symbol: Seq<char>) -> bool
    decreases ticks.len(),
{
    if ticks.len() == 0 {
        false
    } else {
        ||| (ticks.last().symbol == symbol && Slot::at(
            ticks.last().platform,
            ticks.last().market,
        ).recorded())
        ||| written(ticks.drop_last(), symbol)
    }
}

/// A write sets the slot it names: afterwards the symbol's record holds the
/// price in that slot and carries the time of the write.
pub proof fn lemma_upsert_sets_named_slot(
    records: Seq<PriceRecord>,
    symbol: Seq<char>,
    slot: Slot,
    price: Fixed,
    now: Seq<char>,
)
    requires
        distinct_symbols(records),
        slot.recorded(),
    ensures
        price_in(upserted(records, symbol, slot, price, now), symbol, slot) == Some(price),
        lookup(upserted(records, symbol, slot, price, now), symbol) matches Some(record)
            && record.updated == now && record.symbol == symbol,
{
    let after = upserted(records, symbol, slot, price, now);
    lemma_upsert_keeps_distinct(records, symbol, slot, price, now);
    if holds(records, symbol) {
        lemma_position_unique(after, symbol, position(records, symbol));
    } else {
        lemma_position_unique(after, symbol, records.len() as int);
    }
}

/// Slot isolation: a write changes no slot but the one it names. Every
/// other slot of the symbol's record keeps its prior price, or is zero where
/// the write made the record.
pub proof fn lemma_upsert_keeps_other_slots(
    records: Seq<PriceRecord>,
    symbol: Seq<char>,
    slot: Slot,
    price: Fixed,
    now: Seq<char>,
    other: Slot,
)
    requires
        distinct_symbols(records),
        slot.recorded(),
        other.recorded(),
        other != slot,
    ensures
        price_in(upserted(records, symbol, slot, price, now), symbol, other) == if holds(
            records,
            symbol,
        ) {
            price_in(records, symbol, other)
        } else {
            Some(Fixed { mantissa: 0, scale: 0 })
        },
{
    let after = upserted(records, symbol, slot, price, now);
    lemma_upsert_keeps_distinct(records, symbol, slot, price, now);
    if holds(records, symbol) {
        lemma_position_unique(after, symbol, position(records, symbol));
    } else {
        lemma_position_unique(after, symbol, records.len() as int);
    }
}

/// A write to one symbol leaves every other symbol's record as it was.
pub proof fn lemma_upsert_keeps_other_symbols(
    records: Seq<PriceRecord>,
    symbol: Seq<char>,
    slot: Slot,
    price: Fixed,
    now: Seq<char>,
    other: Seq<char>,
)
    requires
        distinct_symbols(records),
        other != symbol,
    ensures
        lookup(upserted(records, symbol, slot, price, now), other) == lookup(records, other),
{
    let after = upserted(records, symbol, slot, price, now);
    lemma_upsert_keeps_distinct(records, symbol, slot, price, now);
    if slot.recorded() {
        if holds(records, other) {
            let at = position(records, other);
            assert(after[at] == records[at]);
            lemma_position_unique(after, other, at);
        } else {
            if holds(after, other) {
                let at = position(after, other);
                if at < records.len() {
                    assert(records[at].symbol == other);
                }
            }
        }
    }
}

/// Slot isolation over any sequence of ticks, whatever platforms they come
/// from and however they interleave: afterwards each slot of each symbol
/// holds the price of the last tick that named it. A slot that no tick
/// named keeps its prior price, or is zero where the record was made by one
/// of the ticks; a symbol that no tick wrote and that had no record has
/// none.
pub proof fn lemma_last_write_wins(
    records: Seq<PriceRecord>,
    ticks: Seq<Tick>,
    now: Seq<char>,
    symbol: Seq<char>,
    slot: Slot,
)
    requires
        distinct_symbols(records),
        slot.recorded(),
    ensures
        distinct_symbols(applied(records, ticks, now)),
        holds(applied(records, ticks, now), symbol) <==> holds(records, symbol) || written(
            ticks,
            symbol,
        ),
        price_in(applied(records, ticks, now), symbol, slot) == match last_price(
            ticks,
            symbol,
            slot,
        ) {
            Some(price) => Some(price),
            None => if holds(records, symbol) {
                price_in(records, symbol, slot)
            } else if written(ticks, symbol) {
                Some(Fixed { mantissa: 0, scale: 0 })
            } else {
                None
            },
        },
    decreases ticks.len(),
{
    if ticks.len() > 0 {
        let tick = ticks.last();
        let named = Slot::at(tick.platform, tick.market);
        let middle = applied(records, ticks.drop_last(), now);
        lemma_last_write_wins(records, ticks.drop_last(), now, symbol, slot);
        lemma_upsert_keeps_distinct(middle, tick.symbol, named, tick.price, now);
        if named.recorded() {
            if tick.symbol == symbol {
                lemma_upsert_holds(middle, symbol, named, tick.price, now);
                if named == slot {
                    lemma_upsert_sets_named_slot(middle, symbol, slot, tick.price, now);
                } else {
                    lemma_upsert_keeps_other_slots(middle, symbol, named, tick.price, now, slot);
                }
            } else {
                lemma_upsert_keeps_other_symbols(
                    middle,
                    tick.symbol,
                    named,
                    tick.price,
                    now,
                    symbol,
                );
            }
        }
    }
}

/// The price of the last tick that names a symbol and a slot is the price
/// of one of the ticks.
proof fn lemma_last_price_is_of_a_tick(ticks: Seq<Tick>, symbol: Seq<char>, slot: Slot)
    requires
        last_price(ticks, symbol, slot) is Some,
    ensures
        exists|k: int| 0 <= k < ticks.len() && (#[trigger] ticks[k]).price == last_price(
            ticks,
            symbol,
            slot,
        )->0,
    decreases ticks.len(),
{
    if ticks.last().symbol == symbol && Slot::at(ticks.last().platform, ticks.last().market)
        == slot {
        assert(ticks[ticks.len() - 1].price == last_price(ticks, symbol, slot)->0);
    } else {
        lemma_last_price_is_of_a_tick(ticks.drop_last(), symbol, slot);
        let k = choose|k: int|
            0 <= k < ticks.drop_last().len() && (#[trigger] ticks.drop_last()[k]).price
                == last_price(ticks.drop_last(), symbol, slot)->0;
        assert(ticks[k].price == last_price(ticks, symbol, slot)->0);
    }
}

/// Zero means that nothing is known yet: in a cache that started empty and
/// took only ticks with a price other than zero, a slot of a record is zero
/// exactly where no tick has named it.
pub proof fn lemma_zero_slot_was_never_written(
    ticks: Seq<Tick>,
    now: Seq<char>,
    symbol: Seq<char>,
    slot: Slot,
)
    requires
        slot.recorded(),
        forall|k: int| 0 <= k < ticks.len() ==> !(#[trigger] ticks[k]).price.is_zero(),
    ensures
        price_in(applied(Seq::empty(), ticks, now), symbol, slot) matches Some(price) ==> (
        price.is_zero() <==> last_price(ticks, symbol, slot) is None),
{
    lemma_last_write_wins(Seq::empty(), ticks, now, symbol, slot);
    if last_price(ticks, symbol, slot) is Some {
        lemma_last_price_is_of_a_tick(ticks, symbol, slot);
    }
}

} // verus!
