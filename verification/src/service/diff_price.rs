//! The two steps of the price pipeline: taking a stream of tickers into the
//! price cache, and scanning a snapshot of the cache for divergence.
//!
//! In the scan every record's compared slots are taken in pairs, and a pair
//! whose prices lie further apart than the threshold gives a signal. For a
//! pair the difference is `to - from` and the rate is
//! `difference / to * 100`, so the rate is taken against the later slot of
//! the fixed order. The arithmetic is `rust_decimal`'s.

use crate::decimal::{difference_of, product_of, quotient_of, Amount, Fixed};
use crate::model::arb_coin_price::{ArbCoinPrice, PriceRecord, Slot};
use crate::model::arb_diff_signal::{ArbDiffSignal, Signal};
use crate::service::price_cache::{
    applied, distinct_symbols, outcome_view, record_views, reported, CacheError, PriceCache,
};
use crate::service::{normalize_stream, ticker_views, ticks_of, PriceStream, Tick};
use vstd::arithmetic::power::{lemma_pow_positive, pow};
use vstd::prelude::*;
use vstd::string::*;

verus! {

/// The threshold that the rate must exceed unless another is given: 0.5.
pub open spec fn threshold_default() -> Fixed {
    Fixed { mantissa: 5, scale: 1 }
}

/// The factor that turns a ratio into a rate in per cent.
pub open spec fn hundred() -> Fixed {
    Fixed { mantissa: 100, scale: 0 }
}

/// The slots that the scan compares, in their fixed order: the futures
/// markets of Binance, Bybit and KuCoin.
pub open spec fn compared_slots() -> Seq<Slot> {
    seq![Slot::BinanceFutures, Slot::BybitFutures, Slot::KucoinFutures]
}

/// The threshold that the rate must exceed unless another is given: 0.5.
pub fn default_threshold() -> (threshold: Amount)
    ensures
        threshold@ == threshold_default(),
{
    let threshold = Amount::new(5, 1);
    threshold.unwrap()
}

/// The slots that the scan compares, in their fixed order.
pub fn diff_slots() -> (slots: Vec<Slot>)
    ensures
        slots@ == compared_slots(),
{
    let mut slots: Vec<Slot> = Vec::new();
    slots.push(Slot::BinanceFutures);
    slots.push(Slot::BybitFutures);
    slots.push(Slot::KucoinFutures);
    assert(slots@ =~= compared_slots());
    slots
}

/// The difference and the rate of a pair of prices: `to - from`, and that
/// difference divided by `to`, times one hundred. None where the arithmetic
/// has no result.
pub open spec fn divergence(from: Fixed, to: Fixed) -> Option<(Fixed, Fixed)> {
    match difference_of(to, from) {
        Some(diff) => match quotient_of(diff, to) {
            Some(ratio) => match product_of(ratio, hundred()) {
                Some(rate) => Some((diff, rate)),
                None => None,
            },
            None => None,
        },
        None => None,
    }
}

/// The view of an optional difference and rate.
pub open spec fn optional_pair(pair: Option<(Amount, Amount)>) -> Option<(Fixed, Fixed)> {
    match pair {
        Some((diff, rate)) => Some((diff@, rate@)),
        None => None,
    }
}

/// The view of an optional signal.
pub open spec fn optional_signal(signal: Option<ArbDiffSignal>) -> Option<Signal> {
    match signal {
        Some(s) => Some(s@),
        None => None,
    }
}

/// The mathematical content of a sequence of signals.
pub open spec fn signal_views(signals: Seq<ArbDiffSignal>) -> Seq<Signal> {
    Seq::new(signals.len(), |i: int| signals[i]@)
}

/// The signal that a pair of slots gives once its difference and rate are
/// known: one where the rate exceeds the threshold, none otherwise. The
/// signal is new: it has no id yet and is created and updated at `now`; it
/// carries the difference, the rate and the record's futures prices.
pub open spec fn judged(
    record: PriceRecord,
    from: Slot,
    to: Slot,
    computed: Option<(Fixed, Fixed)>,
    threshold: Fixed,
    now: Seq<char>,
) -> Option<Signal> {
    match computed {
        Some((diff, rate)) if rate.greater_than(threshold) => Some(
            Signal {
                id: 0,
                symbol: record.symbol,
                from_compare: from.field_name(),
                to_compare: to.field_name(),
                price_diff: diff,
                price_diff_rate: rate,
                binance_futures_price: record.binance_futures_price,
                bybit_futures_price: record.bybit_futures_price,
                kucoin_futures_price: record.kucoin_futures_price,
                created: now,
                updated: now,
            },
        ),
        _ => None,
    }
}

/// The signal that a pair of slots of a record gives. A pair with a slot at
/// zero, or with a slot that the record has no field for, gives none:
/// nothing is known of that slot.
pub open spec fn pair_signal(
    record: PriceRecord,
    from: Slot,
    to: Slot,
    threshold: Fixed,
    now: Seq<char>,
) -> Option<Signal> {
    match (record.price(from), record.price(to)) {
        (Some(from_price), Some(to_price)) => if from_price.is_zero() || to_price.is_zero() {
            None
        } else {
            judged(record, from, to, divergence(from_price, to_price), threshold, now)
        },
        _ => None,
    }
}

/// A sequence of no signal or of one.
pub open spec fn zero_or_one(signal: Option<Signal>) -> Seq<Signal> {
    match signal {
        Some(s) => seq![s],
        None => Seq::empty(),
    }
}

/// The signals of the pairs `(slots[i], slots[k])` with `i < k < j`, in the
/// order of `k`.
pub open spec fn signals_against(
    record: PriceRecord,
    slots: Seq<Slot>,
    i: int,
    j: int,
    threshold: Fixed,
    now: Seq<char>,
) -> Seq<Signal>
    decreases j - i,
{
    if j <= i + 1 {
        Seq::empty()
    } else {
        signals_against(record, slots, i, j - 1, threshold, now) + zero_or_one(
            pair_signal(record, slots[i], slots[j - 1], threshold, now),
        )
    }
}

/// The signals of the pairs `(slots[k], slots[l])` with `k < l` and `k < i`,
/// in the order of `k`, then of `l`.
pub open spec fn signals_before(
    record: PriceRecord,
    slots: Seq<Slot>,
    i: int,
    threshold: Fixed,
    now: Seq<char>,
) -> Seq<Signal>
    decreases i,
{
    if i <= 0 {
        Seq::empty()
    } else {
        signals_before(record, slots, i - 1, threshold, now) + signals_against(
            record,
            slots,
            i - 1,
            slots.len() as int,
            threshold,
            now,
        )
    }
}

/// The signals of a record: those of every pair of distinct compared slots,
/// each pair taken once, the earlier slot of the order as `from`.
pub open spec fn record_signals(
    record: PriceRecord,
    slots: Seq<Slot>,
    threshold: Fixed,
    now: Seq<char>,
) -> Seq<Signal> {
    signals_before(record, slots, slots.len() as int, threshold, now)
}

/// The signals of the first `n` records of a snapshot, record by record.
pub open spec fn snapshot_signals(
    records: Seq<PriceRecord>,
    n: int,
    slots: Seq<Slot>,
    threshold: Fixed,
    now: Seq<char>,
) -> Seq<Signal>
    decreases n,
{
    if n <= 0 {
        Seq::empty()
    } else {
        snapshot_signals(records, n - 1, slots, threshold, now) + record_signals(
            records[n - 1],
            slots,
            threshold,
            now,
        )
    }
}

/// Computes the difference and the rate of a pair of prices.
pub fn compute_divergence(from: &Amount, to: &Amount) -> (computed: Option<(Amount, Amount)>)
    ensures
        optional_pair(computed) == divergence(from@, to@),
{
    match to.checked_sub(from) {
        Some(diff) => match diff.checked_div(to) {
            Some(ratio) => match ratio.checked_mul(&Amount::from_u32(100)) {
                Some(rate) => Some((diff, rate)),
                None => None,
            },
            None => None,
        },
        None => None,
    }
}

/// Decides on a pair once its difference and rate are known: builds the
/// signal where the rate exceeds the threshold.
pub fn judge_pair(
    record: &ArbCoinPrice,
    from: Slot,
    to: Slot,
    computed: Option<(Amount, Amount)>,
    threshold: &Amount,
    now: &String,
) -> (signal: Option<ArbDiffSignal>)
    ensures
        optional_signal(signal) == judged(
            record@,
            from,
            to,
            optional_pair(computed),
            threshold@,
            now@,
        ),
{
    match computed {
        Some((diff, rate)) => {
            if rate.exceeds(threshold) {
                Some(
                    ArbDiffSignal {
                        id: 0,
                        symbol: record.symbol.clone(),
                        from_compare: String::from_str(from.price_field()),
                        to_compare: String::from_str(to.price_field()),
                        price_diff: diff,
                        price_diff_rate: rate,
                        binance_futures_price: record.binance_futures_price,
                        bybit_futures_price: record.bybit_futures_price,
                        kucoin_futures_price: record.kucoin_futures_price,
                        created: now.clone(),
                        updated: now.clone(),
                    },
                )
            } else {
                None
            }
        },
        None => None,
    }
}

/// Evaluates one pair of slots of a record.
pub fn evaluate_pair(
    record: &ArbCoinPrice,
    from: Slot,
    to: Slot,
    threshold: &Amount,
    now: &String,
) -> (signal: Option<ArbDiffSignal>)
    ensures
        optional_signal(signal) == pair_signal(record@, from, to, threshold@, now@),
{
    match record.price(from) {
        Some(from_price) => match record.price(to) {
            Some(to_price) => {
                if from_price.is_zero() || to_price.is_zero() {
                    None
                } else {
                    let computed = compute_divergence(&from_price, &to_price);
                    judge_pair(record, from, to, computed, threshold, now)
                }
            },
            None => None,
        },
        None => None,
    }
}

/// Scans one record: evaluates every pair of distinct slots of `slots` once,
/// the earlier slot as `from`, and collects the signals in the order of the
/// pairs.
pub fn scan_record(
    record: &ArbCoinPrice,
    slots: &Vec<Slot>,
    threshold: &Amount,
    now: &String,
) -> (signals: Vec<ArbDiffSignal>)
    ensures
        signal_views(signals@) == record_signals(record@, slots@, threshold@, now@),
{
    let mut signals: Vec<ArbDiffSignal> = Vec::new();
    let mut i: usize = 0;
    assert(signal_views(signals@) =~= Seq::<Signal>::empty());
    while i < slots.len()
        invariant
            i <= slots.len(),
            signal_views(signals@) == signals_before(record@, slots@, i as int, threshold@, now@),
        decreases slots.len() - i,
    {
        let ghost base = signal_views(signals@);
        let mut j: usize = i + 1;
        assert(signal_views(signals@) =~= base + signals_against(
            record@,
            slots@,
            i as int,
            j as int,
            threshold@,
            now@,
        ));
        while j < slots.len()
            invariant
                i < slots.len(),
                i + 1 <= j <= slots.len(),
                signal_views(signals@) == base + signals_against(
                    record@,
                    slots@,
                    i as int,
                    j as int,
                    threshold@,
                    now@,
                ),
            decreases slots.len() - j,
        {
            let ghost so_far = signal_views(signals@);
            let signal = evaluate_pair(record, slots[i], slots[j], threshold, now);
            match signal {
                Some(s) => {
                    signals.push(s);
                    assert(signal_views(signals@) =~= so_far + seq![s@]);
                },
                None => {
                    assert(so_far =~= so_far + Seq::<Signal>::empty());
                },
            }
            j += 1;
            assert(signal_views(signals@) =~= base + signals_against(
                record@,
                slots@,
                i as int,
                j as int,
                threshold@,
                now@,
            ));
        }
        i += 1;
    }
    signals
}

/// Scans a snapshot of the price cache: the signals of every record, record
/// by record.
pub fn scan(records: &Vec<ArbCoinPrice>, slots: &Vec<Slot>, threshold: &Amount, now: &String) -> (signals:
    Vec<ArbDiffSignal>)
    ensures
        signal_views(signals@) == snapshot_signals(
            record_views(records@),
            records.len() as int,
            slots@,
            threshold@,
            now@,
        ),
{
    let mut signals: Vec<ArbDiffSignal> = Vec::new();
    let mut n: usize = 0;
    assert(signal_views(signals@) =~= Seq::<Signal>::empty());
    while n < records.len()
        invariant
            n <= records.len(),
            signal_views(signals@) == snapshot_signals(
                record_views(records@),
                n as int,
                slots@,
                threshold@,
                now@,
            ),
        decreases records.len() - n,
    {
        let ghost so_far = signal_views(signals@);
        let mut found = scan_record(&records[n], slots, threshold, now);
        let ghost added = signal_views(found@);
        signals.append(&mut found);
        assert(signal_views(signals@) =~= so_far + added);
        n += 1;
    }
    signals
}

/// The ticks that a stream normalises to.
pub open spec fn stream_ticks(stream: PriceStream) -> Seq<Tick> {
    ticks_of(stream.platform, stream.market, ticker_views(stream.tickers@), stream.local_time)
}

/// Takes a stream of tickers into the price cache: each ticker that has a
/// symbol and a readable price is written into its slot at `now`, in order;
/// the others are dropped one by one. For each tick written the symbol's
/// record after the write is reported, so that the caller can mirror it to
/// durable storage; a tick for a slot without a field is reported as refused.
pub fn set_price_data(cache: &mut PriceCache, stream: &PriceStream, now: &String) -> (outcomes:
    Vec<Result<ArbCoinPrice, CacheError>>)
    ensures
        final(cache)@ == applied(old(cache)@, stream_ticks(*stream), now@),
        distinct_symbols(final(cache)@),
        outcomes.len() == stream_ticks(*stream).len(),
        forall|k: int|
            0 <= k < outcomes.len() ==> outcome_view(#[trigger] outcomes[k]) == reported(
                applied(old(cache)@, stream_ticks(*stream).take(k + 1), now@),
                stream_ticks(*stream)[k].symbol,
                Slot::at(stream_ticks(*stream)[k].platform, stream_ticks(*stream)[k].market),
            ),
{
    let ticks = normalize_stream(stream);
    let outcomes = cache.apply_ticks(&ticks, now);
    assert forall|k: int| 0 <= k < outcomes.len() implies outcome_view(#[trigger] outcomes[k])
        == reported(
        applied(old(cache)@, stream_ticks(*stream).take(k + 1), now@),
        stream_ticks(*stream)[k].symbol,
        Slot::at(stream_ticks(*stream)[k].platform, stream_ticks(*stream)[k].market),
    ) by {
        assert(stream_ticks(*stream)[k] == ticks[k]@);
    }
    outcomes
}

/// One scan of a snapshot of the price cache for divergence: the signals of
/// every record, over the futures slots in their fixed order.
pub fn get_diff_signal(snapshot: &Vec<ArbCoinPrice>, threshold: &Amount, now: &String) -> (signals:
    Vec<ArbDiffSignal>)
    ensures
        signal_views(signals@) == snapshot_signals(
            record_views(snapshot@),
            snapshot.len() as int,
            compared_slots(),
            threshold@,
            now@,
        ),
{
    let slots = diff_slots();
    scan(snapshot, &slots, threshold, now)
}

/// Whether a record holds a price for the slot that is not zero.
pub open spec fn known(record: PriceRecord, slot: Slot) -> bool {
    match record.price(slot) {
        Some(price) => !price.is_zero(),
        None => false,
    }
}

/// Unknown-slot exclusion: a pair with either slot at zero gives no signal,
/// whatever the other slot holds and whatever the threshold.
pub proof fn lemma_unknown_slot_gives_no_signal(
    record: PriceRecord,
    from: Slot,
    to: Slot,
    threshold: Fixed,
    now: Seq<char>,
)
    requires
        !known(record, from) || !known(record, to),
    ensures
        pair_signal(record, from, to, threshold, now) is None,
{
}

/// A signal exists for a pair exactly where both slots are known, the
/// arithmetic has a result and the rate exceeds the threshold; it then
/// carries that difference and rate.
pub proof fn lemma_pair_signal_exactly(
    record: PriceRecord,
    from: Slot,
    to: Slot,
    threshold: Fixed,
    now: Seq<char>,
)
    ensures
        pair_signal(record, from, to, threshold, now) matches Some(signal) ==> {
            &&& known(record, from)
            &&& known(record, to)
            &&& divergence(record.price(from)->0, record.price(to)->0) == Some(
                (signal.price_diff, signal.price_diff_rate),
            )
            &&& signal.price_diff_rate.greater_than(threshold)
            &&& signal.symbol == record.symbol
            &&& signal.from_compare == from.field_name()
            &&& signal.to_compare == to.field_name()
        },
        pair_signal(record, from, to, threshold, now) is None ==> {
            ||| !known(record, from)
            ||| !known(record, to)
            ||| divergence(record.price(from)->0, record.price(to)->0) is None
            ||| !(divergence(record.price(from)->0, record.price(to)->0)->0).1.greater_than(
                threshold,
            )
        },
{
}

/// Every signal among those of the pairs `(slots[i], slots[k])`, `i < k < j`,
/// is the signal of one of these pairs.
proof fn lemma_against_sound(
    record: PriceRecord,
    slots: Seq<Slot>,
    i: int,
    j: int,
    threshold: Fixed,
    now: Seq<char>,
    at: int,
)
    requires
        0 <= at < signals_against(record, slots, i, j, threshold, now).len(),
    ensures
        exists|k: int|
            i < k < j && #[trigger] pair_signal(record, slots[i], slots[k], threshold, now) == Some(
                signals_against(record, slots, i, j, threshold, now)[at],
            ),
    decreases j - i,
{
    if j > i + 1 {
        let earlier = signals_against(record, slots, i, j - 1, threshold, now);
        if at < earlier.len() {
            lemma_against_sound(record, slots, i, j - 1, threshold, now, at);
            let k = choose|k: int|
                i < k < j - 1 && #[trigger] pair_signal(record, slots[i], slots[k], threshold, now)
                    == Some(earlier[at]);
            assert(pair_signal(record, slots[i], slots[k], threshold, now) == Some(earlier[at]));
        } else {
            assert(pair_signal(record, slots[i], slots[j - 1], threshold, now) == Some(
                signals_against(record, slots, i, j, threshold, now)[at],
            ));
        }
    }
}

/// The signal of each pair `(slots[i], slots[k])`, `i < k < j`, is among
/// those collected for these pairs.
proof fn lemma_against_complete(
    record: PriceRecord,
    slots: Seq<Slot>,
    i: int,
    j: int,
    threshold: Fixed,
    now: Seq<char>,
    k: int,
)
    requires
        i < k < j,
        pair_signal(record, slots[i], slots[k], threshold, now) is Some,
    ensures
        signals_against(record, slots, i, j, threshold, now).contains(
            pair_signal(record, slots[i], slots[k], threshold, now)->0,
        ),
    decreases j - i,
{
    let wanted = pair_signal(record, slots[i], slots[k], threshold, now)->0;
    let earlier = signals_against(record, slots, i, j - 1, threshold, now);
    let all = signals_against(record, slots, i, j, threshold, now);
    if k < j - 1 {
        lemma_against_complete(record, slots, i, j - 1, threshold, now, k);
        let at = choose|at: int| 0 <= at < earlier.len() && earlier[at] == wanted;
        assert(all[at] == wanted);
    } else {
        assert(all[earlier.len() as int] == wanted);
    }
}

/// Soundness of the scan of a record: every signal found is the signal of a
/// pair of distinct compared slots, the earlier one as `from`, and so of two
/// slots whose prices are known.
pub proof fn lemma_scanned_signal_is_of_a_pair(
    record: PriceRecord,
    slots: Seq<Slot>,
    threshold: Fixed,
    now: Seq<char>,
    at: int,
)
    requires
        0 <= at < record_signals(record, slots, threshold, now).len(),
    ensures
        exists|i: int, j: int|
            0 <= i < j < slots.len() && #[trigger] pair_signal(
                record,
                slots[i],
                slots[j],
                threshold,
                now,
            ) == Some(record_signals(record, slots, threshold, now)[at]) && known(record, slots[i])
                && known(record, slots[j]),
{
    lemma_before_sound(record, slots, slots.len() as int, threshold, now, at);
}

proof fn lemma_before_sound(
    record: PriceRecord,
    slots: Seq<Slot>,
    n: int,
    threshold: Fixed,
    now: Seq<char>,
    at: int,
)
    requires
        0 <= n <= slots.len(),
        0 <= at < signals_before(record, slots, n, threshold, now).len(),
    ensures
        exists|i: int, j: int|
            0 <= i < j < slots.len() && #[trigger] pair_signal(
                record,
                slots[i],
                slots[j],
                threshold,
                now,
            ) == Some(signals_before(record, slots, n, threshold, now)[at]) && known(
                record,
                slots[i],
            ) && known(record, slots[j]),
    decreases n,
{
    if n > 0 {
        let earlier = signals_before(record, slots, n - 1, threshold, now);
        let row = signals_against(record, slots, n - 1, slots.len() as int, threshold, now);
        if at < earlier.len() {
            lemma_before_sound(record, slots, n - 1, threshold, now, at);
            let (i, j) = choose|i: int, j: int|
                0 <= i < j < slots.len() && #[trigger] pair_signal(
                    record,
                    slots[i],
                    slots[j],
                    threshold,
                    now,
                ) == Some(earlier[at]) && known(record, slots[i]) && known(record, slots[j]);
            assert(pair_signal(record, slots[i], slots[j], threshold, now) == Some(earlier[at]));
        } else {
            lemma_against_sound(
                record,
                slots,
                n - 1,
                slots.len() as int,
                threshold,
                now,
                at - earlier.len(),
            );
            let k = choose|k: int|
                n - 1 < k < slots.len() && #[trigger] pair_signal(
                    record,
                    slots[n - 1],
                    slots[k],
                    threshold,
                    now,
                ) == Some(row[at - earlier.len()]);
            assert(pair_signal(record, slots[n - 1], slots[k], threshold, now) == Some(
                signals_before(record, slots, n, threshold, now)[at],
            ));
            lemma_pair_signal_exactly(record, slots[n - 1], slots[k], threshold, now);
        }
    }
}

/// Completeness of the scan of a record: the signal of every pair of
/// distinct compared slots, the earlier one as `from`, is found.
pub proof fn lemma_pair_signal_is_scanned(
    record: PriceRecord,
    slots: Seq<Slot>,
    threshold: Fixed,
    now: Seq<char>,
    i: int,
    j: int,
)
    requires
        0 <= i < j < slots.len(),
        pair_signal(record, slots[i], slots[j], threshold, now) is Some,
    ensures
        record_signals(record, slots, threshold, now).contains(
            pair_signal(record, slots[i], slots[j], threshold, now)->0,
        ),
{
    lemma_before_complete(record, slots, slots.len() as int, threshold, now, i, j);
}

proof fn lemma_before_complete(
    record: PriceRecord,
    slots: Seq<Slot>,
    n: int,
    threshold: Fixed,
    now: Seq<char>,
    i: int,
    j: int,
)
    requires
        0 <= i < n <= slots.len(),
        i < j < slots.len(),
        pair_signal(record, slots[i], slots[j], threshold, now) is Some,
    ensures
        signals_before(record, slots, n, threshold, now).contains(
            pair_signal(record, slots[i], slots[j], threshold, now)->0,
        ),
    decreases n,
{
    let wanted = pair_signal(record, slots[i], slots[j], threshold, now)->0;
    let earlier = signals_before(record, slots, n - 1, threshold, now);
    let row = signals_against(record, slots, n - 1, slots.len() as int, threshold, now);
    let all = signals_before(record, slots, n, threshold, now);
    if i < n - 1 {
        lemma_before_complete(record, slots, n - 1, threshold, now, i, j);
        let at = choose|at: int| 0 <= at < earlier.len() && earlier[at] == wanted;
        assert(all[at] == wanted);
    } else {
        lemma_against_complete(record, slots, i, slots.len() as int, threshold, now, j);
        let at = choose|at: int| 0 <= at < row.len() && row[at] == wanted;
        assert(all[earlier.len() + at] == wanted);
    }
}

/// The same signal computed at another time: only the two times differ.
pub open spec fn at_time(signal: Signal, now: Seq<char>) -> Signal {
    Signal { created: now, updated: now, ..signal }
}

/// A sequence of signals computed at another time.
pub open spec fn all_at_time(signals: Seq<Signal>, now: Seq<char>) -> Seq<Signal> {
    Seq::new(signals.len(), |k: int| at_time(signals[k], now))
}

proof fn lemma_against_at_time(
    record: PriceRecord,
    slots: Seq<Slot>,
    i: int,
    j: int,
    threshold: Fixed,
    first: Seq<char>,
    second: Seq<char>,
)
    ensures
        signals_against(record, slots, i, j, threshold, second) == all_at_time(
            signals_against(record, slots, i, j, threshold, first),
            second,
        ),
    decreases j - i,
{
    if j > i + 1 {
        lemma_against_at_time(record, slots, i, j - 1, threshold, first, second);
    }
    assert(signals_against(record, slots, i, j, threshold, second) =~= all_at_time(
        signals_against(record, slots, i, j, threshold, first),
        second,
    ));
}

proof fn lemma_before_at_time(
    record: PriceRecord,
    slots: Seq<Slot>,
    n: int,
    threshold: Fixed,
    first: Seq<char>,
    second: Seq<char>,
)
    ensures
        signals_before(record, slots, n, threshold, second) == all_at_time(
            signals_before(record, slots, n, threshold, first),
            second,
        ),
    decreases n,
{
    if n > 0 {
        lemma_before_at_time(record, slots, n - 1, threshold, first, second);
        lemma_against_at_time(record, slots, n - 1, slots.len() as int, threshold, first, second);
    }
    assert(signals_before(record, slots, n, threshold, second) =~= all_at_time(
        signals_before(record, slots, n, threshold, first),
        second,
    ));
}

/// A scan of the same records at another time finds the same signals, pair
/// for pair; they differ in nothing but the time they carry.
pub proof fn lemma_scan_depends_on_time_only_in_time(
    records: Seq<PriceRecord>,
    n: int,
    slots: Seq<Slot>,
    threshold: Fixed,
    first: Seq<char>,
    second: Seq<char>,
)
    ensures
        snapshot_signals(records, n, slots, threshold, second) == all_at_time(
            snapshot_signals(records, n, slots, threshold, first),
            second,
        ),
    decreases n,
{
    if n > 0 {
        lemma_scan_depends_on_time_only_in_time(records, n - 1, slots, threshold, first, second);
        lemma_before_at_time(records[n - 1], slots, slots.len() as int, threshold, first, second);
    }
    assert(snapshot_signals(records, n, slots, threshold, second) =~= all_at_time(
        snapshot_signals(records, n, slots, threshold, first),
        second,
    ));
}

/// Against a threshold that is not negative, only a positive rate gives a
/// signal: a pair whose later price is the lower one gives none.
pub proof fn lemma_signal_rate_is_positive(
    record: PriceRecord,
    from: Slot,
    to: Slot,
    threshold: Fixed,
    now: Seq<char>,
)
    requires
        threshold.mantissa >= 0,
    ensures
        pair_signal(record, from, to, threshold, now) matches Some(signal)
            ==> signal.price_diff_rate.mantissa > 0,
{
    if pair_signal(record, from, to, threshold, now) is Some {
        let rate = pair_signal(record, from, to, threshold, now)->0.price_diff_rate;
        lemma_pair_signal_exactly(record, from, to, threshold, now);
        let pt = pow(10, threshold.scale as nat);
        let pr = pow(10, rate.scale as nat);
        lemma_pow_positive(10, threshold.scale as nat);
        lemma_pow_positive(10, rate.scale as nat);
        assert(rate.mantissa > 0) by (nonlinear_arith)
            requires
                rate.mantissa * pt > threshold.mantissa * pr,
                threshold.mantissa >= 0,
                pt > 0,
                pr > 0,
        ;
    }
}

} // verus!
