//! Properties of the analysis and of the signals that hold for all inputs.
use vstd::prelude::*;
use crate::model::{
    Candle, FairValueGap, FvgDirection, IctConfig, MarketStructure, OrderBlock, TrendDirection,
};
use crate::signal::{
    block_signal, first_block_signal, first_gap_signal, gap_signal, signal_spec, SignalView,
};
use crate::spec::{
    bearish_gap, bullish_gap, detect_gaps, drop_filled, empty_state, identify_blocks, is_stale, keep_last,
    process_candle_spec, process_candles_spec, record_block, record_gap, refresh_blocks,
    refresh_gap, refresh_gaps, scan_blocks, scan_structure, update_structure, candle_range,
    range_sum, AnalysisState,
};

verus! {

/// A signal agrees with the trend: longs only in an uptrend, shorts only in
/// a downtrend; it enters at the current price (in signal units); and for a
/// positive price its stop lies strictly beyond the entry on the losing side
/// and its target strictly beyond it on the winning side, all positive.
pub open spec fn signal_well_formed(s: SignalView, trend: TrendDirection, price: u64) -> bool {
    match s {
        SignalView::Long { entry_price, stop_loss, take_profit, .. } => {
            &&& trend == TrendDirection::Bullish
            &&& entry_price == price * 1000
            &&& stop_loss <= entry_price <= take_profit
            &&& price > 0 ==> 0 < stop_loss < entry_price < take_profit
        },
        SignalView::Short { entry_price, stop_loss, take_profit, .. } => {
            &&& trend == TrendDirection::Bearish
            &&& entry_price == price * 1000
            &&& take_profit <= entry_price <= stop_loss
            &&& price > 0 ==> 0 < take_profit < entry_price < stop_loss
        },
    }
}

proof fn lemma_gap_signal_well_formed(trend: TrendDirection, g: FairValueGap, price: u64)
    ensures
        gap_signal(trend, g, price) matches Some(s) ==> signal_well_formed(s, trend, price),
{
}

proof fn lemma_block_signal_well_formed(trend: TrendDirection, b: OrderBlock, price: u64)
    ensures
        block_signal(trend, b, price) matches Some(s) ==> signal_well_formed(s, trend, price),
{
}

proof fn lemma_first_gap_well_formed(gaps: Seq<FairValueGap>, trend: TrendDirection, price: u64)
    ensures
        first_gap_signal(gaps, trend, price) matches Some(s) ==> signal_well_formed(s, trend, price),
    decreases gaps.len(),
{
    if gaps.len() > 0 {
        lemma_gap_signal_well_formed(trend, gaps[0], price);
        lemma_first_gap_well_formed(gaps.drop_first(), trend, price);
    }
}

proof fn lemma_first_block_well_formed(blocks: Seq<OrderBlock>, trend: TrendDirection, price: u64)
    ensures
        first_block_signal(blocks, trend, price) matches Some(s) ==> signal_well_formed(s, trend, price),
    decreases blocks.len(),
{
    if blocks.len() > 0 {
        lemma_block_signal_well_formed(trend, blocks[0], price);
        lemma_first_block_well_formed(blocks.drop_first(), trend, price);
    }
}

/// Every signal follows the trend (no long outside an uptrend, no short
/// outside a downtrend, none in a sideways market), enters at the current
/// price, and, for any positive price, places its stop strictly beyond the
/// entry on the losing side and its target strictly beyond it on the winning
/// side, all prices positive.
pub proof fn law_signal_well_formed(s: AnalysisState, price: u64)
    ensures
        signal_spec(s, price) matches Some(v) ==> signal_well_formed(
            v,
            s.market_structure.trend,
            price,
        ),
        s.market_structure.trend == TrendDirection::Sideways ==> signal_spec(s, price) is None,
{
    lemma_first_gap_well_formed(s.fair_value_gaps, s.market_structure.trend, price);
    lemma_first_block_well_formed(s.order_blocks, s.market_structure.trend, price);
}


// ---------------------------------------------------------------- invariants of the analysis

/// Candle close times strictly increase along the history.
pub open spec fn times_increasing(h: Seq<Candle>) -> bool {
    forall|i: int, j: int| 0 <= i < j < h.len() ==> #[trigger] h[i].close_time < #[trigger] h[j].close_time
}

/// No candle in the history closes after the last accepted candle, and there
/// is a last accepted candle whenever the history is not empty.
pub open spec fn history_before(h: Seq<Candle>, last: Option<i64>) -> bool {
    match last {
        None => h.len() == 0,
        Some(t) => forall|i: int| 0 <= i < h.len() ==> #[trigger] h[i].close_time <= t,
    }
}

/// No two gaps share a time and a direction.
pub open spec fn gaps_unique(g: Seq<FairValueGap>) -> bool {
    forall|i: int, j: int|
        0 <= i < j < g.len() ==> !(#[trigger] g[i].time == #[trigger] g[j].time && g[i].direction
            == g[j].direction)
}

/// Every gap's bottom lies strictly below its top.
pub open spec fn gaps_proper(g: Seq<FairValueGap>) -> bool {
    forall|i: int| 0 <= i < g.len() ==> #[trigger] g[i].bottom < g[i].top
}

/// No two order blocks share a time.
pub open spec fn blocks_unique(b: Seq<OrderBlock>) -> bool {
    forall|i: int, j: int| 0 <= i < j < b.len() ==> #[trigger] b[i].time != #[trigger] b[j].time
}

/// The invariant that processing candles keeps.
pub open spec fn analysis_wf(s: AnalysisState) -> bool {
    &&& times_increasing(s.candle_history)
    &&& history_before(s.candle_history, s.last_candle_time)
    &&& s.fair_value_gaps.len() <= 20
    &&& s.order_blocks.len() <= 15
    &&& gaps_unique(s.fair_value_gaps)
    &&& gaps_proper(s.fair_value_gaps)
    &&& blocks_unique(s.order_blocks)
}

/// A cap keeps the newest elements: `keep_last(s, n)` holds the last
/// `min(n, s.len())` elements of `s`, in order, so the oldest are dropped
/// first.
pub proof fn law_cap_keeps_newest<T>(s: Seq<T>, n: nat)
    ensures
        keep_last(s, n).len() <= n,
        keep_last(s, n).len() <= s.len(),
        keep_last(s, n).len() == if s.len() > n { n as int } else { s.len() as int },
        forall|i: int|
            0 <= i < keep_last(s, n).len() ==> #[trigger] keep_last(s, n)[i] == s[i + s.len()
                - keep_last(s, n).len()],
{
}

proof fn lemma_record_gap(g: Seq<FairValueGap>, c: Option<FairValueGap>)
    requires
        gaps_unique(g),
        gaps_proper(g),
        c matches Some(x) ==> x.bottom < x.top,
    ensures
        gaps_unique(record_gap(g, c)),
        gaps_proper(record_gap(g, c)),
        record_gap(g, c).len() <= g.len() + 1,
        record_gap(g, c).subrange(0, g.len() as int) == g,
{
    assert(g.subrange(0, g.len() as int) =~= g);
    if let Some(x) = c {
        if !crate::spec::has_gap(g, x.time, x.direction) {
            let r = g.push(x);
            assert(r.subrange(0, g.len() as int) =~= g);
            assert forall|i: int, j: int| 0 <= i < j < r.len() implies !(#[trigger] r[i].time
                == #[trigger] r[j].time && r[i].direction == r[j].direction) by {
                if j == g.len() {
                    assert(!(g[i].time == x.time && g[i].direction == x.direction));
                }
            }
        }
    }
}

proof fn lemma_drop_filled(s: Seq<FairValueGap>)
    ensures
        drop_filled(s).len() <= s.len(),
        forall|i: int|
            0 <= i < drop_filled(s).len() ==> !(#[trigger] drop_filled(s)[i]).filled && s.contains(
                drop_filled(s)[i],
            ),
        gaps_unique(s) ==> gaps_unique(drop_filled(s)),
        gaps_proper(s) ==> gaps_proper(drop_filled(s)),
        s.len() > 0 && !s.last().filled ==> drop_filled(s).len() > 0 && drop_filled(s).last()
            == s.last(),
        forall|i: int| 0 <= i < s.len() && !(#[trigger] s[i]).filled ==> drop_filled(s).contains(s[i]),
    decreases s.len(),
{
    if s.len() > 0 {
        let p = s.drop_last();
        lemma_drop_filled(p);
        let rest = drop_filled(p);
        assert forall|i: int| 0 <= i < rest.len() implies s.contains(#[trigger] rest[i]) by {
            let k = choose|k: int| 0 <= k < p.len() && p[k] == rest[i];
            assert(s[k] == rest[i]);
        }
        assert forall|i: int| 0 <= i < s.len() && !(#[trigger] s[i]).filled implies drop_filled(
            s,
        ).contains(s[i]) by {
            if i < p.len() {
                assert(p[i] == s[i]);
                let k = choose|k: int| 0 <= k < rest.len() && rest[k] == p[i];
                if !s.last().filled {
                    assert(rest.push(s.last())[k] == rest[k]);
                }
            } else {
                assert(rest.push(s.last())[rest.len() as int] == s[i]);
            }
        }
        if !s.last().filled {
            let r = rest.push(s.last());
            assert(s[s.len() - 1] == s.last());
            assert forall|i: int| 0 <= i < r.len() implies !(#[trigger] r[i]).filled && s.contains(r[i]) by {
                if i < rest.len() {
                    assert(r[i] == rest[i]);
                }
            }
            if gaps_unique(s) {
                assert(gaps_unique(p)) by {
                    assert forall|i: int, j: int| 0 <= i < j < p.len() implies !(#[trigger] p[i].time
                        == #[trigger] p[j].time && p[i].direction == p[j].direction) by {
                        assert(p[i] == s[i] && p[j] == s[j]);
                    }
                }
                assert forall|i: int, j: int| 0 <= i < j < r.len() implies !(#[trigger] r[i].time
                    == #[trigger] r[j].time && r[i].direction == r[j].direction) by {
                    if j == rest.len() {
                        let k = choose|k: int| 0 <= k < p.len() && p[k] == rest[i];
                        assert(s[k] == r[i]);
                        assert(!(s[k].time == s[s.len() - 1].time && s[k].direction == s[s.len()
                            - 1].direction));
                    }
                }
            }
            if gaps_proper(s) {
                assert(gaps_proper(p)) by {
                    assert forall|i: int| 0 <= i < p.len() implies #[trigger] p[i].bottom < p[i].top by {
                        assert(p[i] == s[i]);
                    }
                }
                assert forall|i: int| 0 <= i < r.len() implies #[trigger] r[i].bottom < r[i].top by {
                    if i == rest.len() {
                        assert(s[s.len() - 1] == r[i]);
                    }
                }
            }
        } else {
            if gaps_unique(s) {
                assert(gaps_unique(p)) by {
                    assert forall|i: int, j: int| 0 <= i < j < p.len() implies !(#[trigger] p[i].time
                        == #[trigger] p[j].time && p[i].direction == p[j].direction) by {
                        assert(p[i] == s[i] && p[j] == s[j]);
                    }
                }
            }
            if gaps_proper(s) {
                assert(gaps_proper(p)) by {
                    assert forall|i: int| 0 <= i < p.len() implies #[trigger] p[i].bottom < p[i].top by {
                        assert(p[i] == s[i]);
                    }
                }
            }
        }
    }
}

/// A detection step keeps the gaps unique by time and direction, each with
/// its bottom below its top, and at most twenty of them; on at least three
/// candles none of the kept gaps is filled.
pub proof fn law_detect_gaps_keeps_wf(g: Seq<FairValueGap>, h: Seq<Candle>, cfg: IctConfig)
    requires
        gaps_unique(g),
        gaps_proper(g),
        g.len() <= 20,
    ensures
        gaps_unique(detect_gaps(g, h, cfg)),
        gaps_proper(detect_gaps(g, h, cfg)),
        detect_gaps(g, h, cfg).len() <= 20,
        h.len() >= 3 ==> forall|j: int|
            0 <= j < detect_gaps(g, h, cfg).len() ==> !(#[trigger] detect_gaps(g, h, cfg)[j]).filled,
{
    if h.len() >= 3 {
        let n = h.len() as int;
        let (c1, c2, c3) = (h[n - 3], h[n - 2], h[n - 1]);
        let r1 = record_gap(g, bullish_gap(c1, c2, c3, cfg));
        lemma_record_gap(g, bullish_gap(c1, c2, c3, cfg));
        let r2 = record_gap(r1, bearish_gap(c1, c2, c3, cfg));
        lemma_record_gap(r1, bearish_gap(c1, c2, c3, cfg));
        let f = refresh_gaps(r2, c3);
        assert(gaps_unique(f));
        assert(gaps_proper(f));
        law_cap_keeps_newest(f, 20);
        let k = keep_last(f, 20);
        assert forall|i: int, j: int| 0 <= i < j < k.len() implies !(#[trigger] k[i].time
            == #[trigger] k[j].time && k[i].direction == k[j].direction) by {
            assert(k[i] == f[i + f.len() - k.len()]);
            assert(k[j] == f[j + f.len() - k.len()]);
        }
        assert forall|i: int| 0 <= i < k.len() implies #[trigger] k[i].bottom < k[i].top by {
            assert(k[i] == f[i + f.len() - k.len()]);
        }
        lemma_drop_filled(k);
    }
}

proof fn lemma_record_block(b: Seq<OrderBlock>, c: Option<OrderBlock>)
    requires
        blocks_unique(b),
    ensures
        blocks_unique(record_block(b, c)),
        record_block(b, c).len() <= b.len() + 1,
        record_block(b, c).subrange(0, b.len() as int) == b,
{
    assert(b.subrange(0, b.len() as int) =~= b);
    if let Some(x) = c {
        if !crate::spec::has_block(b, x.time) {
            let r = b.push(x);
            assert(r.subrange(0, b.len() as int) =~= b);
            assert forall|i: int, j: int| 0 <= i < j < r.len() implies #[trigger] r[i].time
                != #[trigger] r[j].time by {
                if j == b.len() {
                    assert(b[i].time != x.time);
                }
            }
        }
    }
}

proof fn lemma_scan_blocks_unique(b: Seq<OrderBlock>, h: Seq<Candle>, cfg: IctConfig, end: int)
    requires
        blocks_unique(b),
    ensures
        blocks_unique(scan_blocks(b, h, cfg, end)),
    decreases end,
{
    if end > 2 {
        lemma_scan_blocks_unique(b, h, cfg, end - 1);
        lemma_record_block(scan_blocks(b, h, cfg, end - 1), crate::spec::block_candidate(h, end - 1, cfg));
    }
}

/// An identification step keeps the order blocks unique by time and at most
/// fifteen of them.
pub proof fn law_identify_blocks_keeps_wf(b: Seq<OrderBlock>, h: Seq<Candle>, cfg: IctConfig)
    requires
        blocks_unique(b),
        b.len() <= 15,
    ensures
        blocks_unique(identify_blocks(b, h, cfg)),
        identify_blocks(b, h, cfg).len() <= 15,
{
    if h.len() >= 5 {
        let sc = scan_blocks(b, h, cfg, h.len() - 2);
        lemma_scan_blocks_unique(b, h, cfg, h.len() - 2);
        let f = refresh_blocks(sc, h[h.len() - 1]);
        assert(blocks_unique(f));
        law_cap_keeps_newest(f, 15);
        let k = keep_last(f, 15);
        assert forall|i: int, j: int| 0 <= i < j < k.len() implies #[trigger] k[i].time
            != #[trigger] k[j].time by {
            assert(k[i] == f[i + f.len() - k.len()]);
            assert(k[j] == f[j + f.len() - k.len()]);
        }
    }
}

/// The empty analysis satisfies the invariant.
pub proof fn law_empty_state_wf()
    ensures
        analysis_wf(empty_state()),
{
}

/// Processing a candle keeps the invariant: the history stays in strictly
/// increasing close time and never runs past the last accepted candle, at
/// most twenty gaps and fifteen order blocks are kept, no gap is recorded
/// twice for the same time and direction, every gap has its bottom below its
/// top, and no order block is recorded twice for the same time.
pub proof fn law_process_candle_keeps_wf(s: AnalysisState, c: Candle, cfg: IctConfig)
    requires
        analysis_wf(s),
    ensures
        analysis_wf(process_candle_spec(s, c, cfg)),
{
    if !is_stale(s.last_candle_time, c) {
        let full = s.candle_history.push(c);
        assert(times_increasing(full)) by {
            assert forall|i: int, j: int| 0 <= i < j < full.len() implies #[trigger] full[i].close_time
                < #[trigger] full[j].close_time by {
                if j == s.candle_history.len() {
                    assert(full[i] == s.candle_history[i]);
                }
            }
        }
        let h = keep_last(full, cfg.max_candle_history as nat);
        law_cap_keeps_newest(full, cfg.max_candle_history as nat);
        assert(times_increasing(h)) by {
            assert forall|i: int, j: int| 0 <= i < j < h.len() implies #[trigger] h[i].close_time
                < #[trigger] h[j].close_time by {
                assert(h[i] == full[i + full.len() - h.len()]);
                assert(h[j] == full[j + full.len() - h.len()]);
            }
        }
        assert(history_before(h, Some(c.close_time))) by {
            assert forall|i: int| 0 <= i < h.len() implies #[trigger] h[i].close_time <= c.close_time by {
                assert(h[i] == full[i + full.len() - h.len()]);
                if i + full.len() - h.len() < s.candle_history.len() {
                    assert(full[i + full.len() - h.len()] == s.candle_history[i + full.len() - h.len()]);
                }
            }
        }
        if h.len() >= 3 {
            law_detect_gaps_keeps_wf(s.fair_value_gaps, h, cfg);
            law_identify_blocks_keeps_wf(s.order_blocks, h, cfg);
        }
    }
}


// ---------------------------------------------------------------- stale and repeated candles

/// A candle closing no later than the last accepted one changes nothing.
pub proof fn law_stale_candle_ignored(s: AnalysisState, c: Candle, cfg: IctConfig)
    requires
        is_stale(s.last_candle_time, c),
    ensures
        process_candle_spec(s, c, cfg) == s,
{
}

/// Offering the same candle twice has the effect of offering it once.
pub proof fn law_same_candle_twice(s: AnalysisState, c: Candle, cfg: IctConfig)
    ensures
        process_candle_spec(process_candle_spec(s, c, cfg), c, cfg) == process_candle_spec(s, c, cfg),
{
}

/// An accepted candle becomes the last candle time and the newest candle of
/// the history, which holds the newest `max_candle_history` candles of the
/// old history followed by it.
pub proof fn law_accepted_candle_is_newest(s: AnalysisState, c: Candle, cfg: IctConfig)
    requires
        !is_stale(s.last_candle_time, c),
    ensures
        process_candle_spec(s, c, cfg).last_candle_time == Some(c.close_time),
        process_candle_spec(s, c, cfg).candle_history == keep_last(
            s.candle_history.push(c),
            cfg.max_candle_history as nat,
        ),
        process_candle_spec(s, c, cfg).candle_history.len() == if s.candle_history.len() + 1
            > cfg.max_candle_history {
            cfg.max_candle_history as int
        } else {
            (s.candle_history.len() + 1) as int
        },
        cfg.max_candle_history > 0 ==> process_candle_spec(s, c, cfg).candle_history.last() == c,
{
    law_cap_keeps_newest(s.candle_history.push(c), cfg.max_candle_history as nat);
}

/// The history never holds more than `max_candle_history` candles once it
/// held no more before.
pub proof fn law_history_bounded(s: AnalysisState, c: Candle, cfg: IctConfig)
    requires
        s.candle_history.len() <= cfg.max_candle_history,
    ensures
        process_candle_spec(s, c, cfg).candle_history.len() <= cfg.max_candle_history,
{
    law_cap_keeps_newest(s.candle_history.push(c), cfg.max_candle_history as nat);
}

// ---------------------------------------------------------------- market structure

/// `after` is reachable from `before` by structure updates: a break of
/// structure, once seen, stays seen; the trend differs only after one; and a
/// trend, once set, never returns to sideways.
pub open spec fn structure_follows(before: MarketStructure, after: MarketStructure) -> bool {
    &&& before.break_of_structure ==> after.break_of_structure
    &&& after.trend != before.trend ==> after.break_of_structure
    &&& before.trend != TrendDirection::Sideways ==> after.trend != TrendDirection::Sideways
}

proof fn lemma_scan_structure_follows(ms: MarketStructure, h: Seq<Candle>, end: int)
    ensures
        structure_follows(ms, scan_structure(ms, h, end)),
    decreases end,
{
    if end > 2 {
        lemma_scan_structure_follows(ms, h, end - 1);
    }
}

/// Processing a candle never clears a break of structure, changes the trend
/// only together with a break of structure, and never returns a set trend to
/// sideways.
pub proof fn law_structure_changes_on_break(s: AnalysisState, c: Candle, cfg: IctConfig)
    ensures
        structure_follows(s.market_structure, process_candle_spec(s, c, cfg).market_structure),
{
    let h = keep_last(s.candle_history.push(c), cfg.max_candle_history as nat);
    if h.len() >= 5 {
        lemma_scan_structure_follows(s.market_structure, h, h.len() - 2);
    }
}

// ---------------------------------------------------------------- filled gaps, tested blocks

/// Two gaps cover the same range at the same time in the same direction.
pub open spec fn same_gap(x: FairValueGap, y: FairValueGap) -> bool {
    &&& x.top == y.top
    &&& x.bottom == y.bottom
    &&& x.time == y.time
    &&& x.direction == y.direction
}

/// `x` is one of the gaps `old` held, or a gap of the three candles.
pub open spec fn gap_from(x: FairValueGap, old: Seq<FairValueGap>, c1: Candle, c2: Candle, c3: Candle, cfg: IctConfig) -> bool {
    ||| exists|i: int| 0 <= i < old.len() && same_gap(x, #[trigger] old[i])
    ||| bullish_gap(c1, c2, c3, cfg) matches Some(b) && same_gap(x, b)
    ||| bearish_gap(c1, c2, c3, cfg) matches Some(b) && same_gap(x, b)
}

/// The gaps of a detection step before filled ones are removed: the gaps
/// held, with the gaps of the last three candles recorded, refreshed by the
/// last candle, and cut to the newest `max_gaps()`.
pub open spec fn refreshed_window(g: Seq<FairValueGap>, h: Seq<Candle>, cfg: IctConfig) -> Seq<FairValueGap>
    recommends
        h.len() >= 3,
{
    let n = h.len() as int;
    keep_last(
        refresh_gaps(
            record_gap(
                record_gap(g, bullish_gap(h[n - 3], h[n - 2], h[n - 1], cfg)),
                bearish_gap(h[n - 3], h[n - 2], h[n - 1], cfg),
            ),
            h[n - 1],
        ),
        20,
    )
}

/// After a detection step on at least three candles: at most twenty gaps are
/// kept, all from the newest twenty (older ones are always dropped); no kept
/// gap is filled, and every unfilled gap among the newest twenty is kept
/// (filled gaps are cleaned up); and every kept gap is one that was held
/// before, with its range, time and direction unchanged, or a gap of the last
/// three candles.
pub proof fn law_detected_gaps(g: Seq<FairValueGap>, h: Seq<Candle>, cfg: IctConfig)
    requires
        h.len() >= 3,
    ensures
        detect_gaps(g, h, cfg).len() <= 20,
        forall|j: int|
            0 <= j < detect_gaps(g, h, cfg).len() ==> !(#[trigger] detect_gaps(g, h, cfg)[j]).filled
                && refreshed_window(g, h, cfg).contains(detect_gaps(g, h, cfg)[j]) && gap_from(
                detect_gaps(g, h, cfg)[j],
                g,
                h[h.len() - 3],
                h[h.len() - 2],
                h[h.len() - 1],
                cfg,
            ),
        forall|i: int|
            0 <= i < refreshed_window(g, h, cfg).len() && !(#[trigger] refreshed_window(
                g,
                h,
                cfg,
            )[i]).filled ==> detect_gaps(g, h, cfg).contains(refreshed_window(g, h, cfg)[i]),
{
    let n = h.len() as int;
    let (c1, c2, c3) = (h[n - 3], h[n - 2], h[n - 1]);
    let r1 = record_gap(g, bullish_gap(c1, c2, c3, cfg));
    let r2 = record_gap(r1, bearish_gap(c1, c2, c3, cfg));
    let f = refresh_gaps(r2, c3);
    law_cap_keeps_newest(f, 20);
    let k = keep_last(f, 20);
    assert(k == refreshed_window(g, h, cfg));
    let d = drop_filled(k);
    lemma_drop_filled(k);
    assert(d == detect_gaps(g, h, cfg));
    assert forall|j: int| 0 <= j < d.len() implies !(#[trigger] d[j]).filled && k.contains(d[j])
        && gap_from(d[j], g, c1, c2, c3, cfg) by {
        let x = d[j];
        let q = choose|q: int| 0 <= q < k.len() && k[q] == x;
        let m = q + f.len() - k.len();
        assert(k[q] == f[m]);
        assert(same_gap(x, r2[m]));
        if m < g.len() {
            if m < r1.len() && r1.len() == g.len() {
                assert(r2[m] == r1[m]);
            }
            assert(r1[m] == g[m]);
            if r2.len() > r1.len() {
                assert(r2[m] == r1[m]);
            }
            assert(same_gap(x, g[m]));
        } else if m < r1.len() {
            assert(r1 == g.push(bullish_gap(c1, c2, c3, cfg).unwrap()));
            if r2.len() > r1.len() {
                assert(r2[m] == r1[m]);
            }
        } else {
            assert(r2 == r1.push(bearish_gap(c1, c2, c3, cfg).unwrap()));
        }
    }
}

/// The elements of `r` past the prefix `b` share no time with any element
/// of `b`.
pub open spec fn blocks_fresh(r: Seq<OrderBlock>, b: Seq<OrderBlock>) -> bool {
    forall|k: int, i: int| b.len() <= k < r.len() && 0 <= i < b.len() ==> #[trigger] r[k].time
        != #[trigger] b[i].time
}

proof fn lemma_scan_blocks_fresh(b: Seq<OrderBlock>, h: Seq<Candle>, cfg: IctConfig, end: int)
    ensures
        scan_blocks(b, h, cfg, end).len() >= b.len(),
        scan_blocks(b, h, cfg, end).subrange(0, b.len() as int) == b,
        blocks_fresh(scan_blocks(b, h, cfg, end), b),
    decreases end,
{
    if end <= 2 {
        assert(b.subrange(0, b.len() as int) =~= b);
    } else {
        lemma_scan_blocks_fresh(b, h, cfg, end - 1);
        let r = scan_blocks(b, h, cfg, end - 1);
        let c = crate::spec::block_candidate(h, end - 1, cfg);
        if let Some(x) = c {
            if !crate::spec::has_block(r, x.time) {
                let n = r.push(x);
                assert(n.subrange(0, b.len() as int) =~= r.subrange(0, b.len() as int));
                assert forall|k: int, i: int| b.len() <= k < n.len() && 0 <= i < b.len() implies
                #[trigger] n[k].time != #[trigger] b[i].time by {
                    assert(b[i] == r.subrange(0, b.len() as int)[i]);
                    if k == r.len() {
                        assert(r[i].time != x.time);
                    }
                }
            }
        }
    }
}

/// An order block once tested stays tested: after a candle, any block
/// recorded for the same time as a tested block is tested.
pub proof fn law_test_is_permanent(s: AnalysisState, c: Candle, cfg: IctConfig)
    requires
        analysis_wf(s),
    ensures
        forall|i: int, j: int|
            0 <= i < s.order_blocks.len() && 0 <= j < process_candle_spec(s, c, cfg).order_blocks.len()
                && s.order_blocks[i].tested && #[trigger] process_candle_spec(
                s,
                c,
                cfg,
            ).order_blocks[j].time == #[trigger] s.order_blocks[i].time ==> process_candle_spec(
                s,
                c,
                cfg,
            ).order_blocks[j].tested,
{
    let t = process_candle_spec(s, c, cfg);
    let b = s.order_blocks;
    if !is_stale(s.last_candle_time, c) {
        let h = keep_last(s.candle_history.push(c), cfg.max_candle_history as nat);
        if h.len() >= 5 {
            let sc = scan_blocks(b, h, cfg, h.len() - 2);
            lemma_scan_blocks_fresh(b, h, cfg, h.len() - 2);
            let f = refresh_blocks(sc, h[h.len() - 1]);
            law_cap_keeps_newest(f, 15);
            assert forall|i: int, j: int|
                0 <= i < b.len() && 0 <= j < t.order_blocks.len() && b[i].tested
                    && #[trigger] t.order_blocks[j].time == #[trigger] b[i].time implies t.order_blocks[j].tested by {
                let idx = j + f.len() - t.order_blocks.len();
                assert(t.order_blocks[j] == f[idx]);
                if idx < b.len() {
                    assert(sc[idx] == sc.subrange(0, b.len() as int)[idx]);
                    if idx != i {
                        if idx < i {
                            assert(b[idx].time != b[i].time);
                        } else {
                            assert(b[i].time != b[idx].time);
                        }
                    }
                } else {
                    assert(sc[idx].time != b[i].time);
                }
            }
        }
    }
}


// ---------------------------------------------------------------- new gaps

/// A candle whose low lies at or below its high.
pub open spec fn candle_valid(c: Candle) -> bool {
    c.low <= c.high
}

/// Three candles form at most one gap: never a bullish and a bearish one
/// together, when the first and third candles are valid.
pub proof fn law_one_gap_per_candle(c1: Candle, c2: Candle, c3: Candle, cfg: IctConfig)
    requires
        candle_valid(c1),
        candle_valid(c3),
    ensures
        !(bullish_gap(c1, c2, c3, cfg) is Some && bearish_gap(c1, c2, c3, cfg) is Some),
{
}

/// When the last three candles form a bullish gap (the first candle's high
/// lies below the third's low by at least the minimum pips) not yet recorded,
/// the detection step records it last, unfilled, from the first candle's
/// high to the third candle's low.
pub proof fn law_new_bullish_gap_is_last(g: Seq<FairValueGap>, h: Seq<Candle>, cfg: IctConfig)
    requires
        h.len() >= 3,
        candle_valid(h[h.len() - 3]),
        candle_valid(h[h.len() - 1]),
        bullish_gap(h[h.len() - 3], h[h.len() - 2], h[h.len() - 1], cfg) is Some,
        !crate::spec::has_gap(g, h[h.len() - 2].close_time, FvgDirection::Bullish),
    ensures
        detect_gaps(g, h, cfg).len() > 0,
        detect_gaps(g, h, cfg).last() == (FairValueGap {
            top: h[h.len() - 1].low,
            bottom: h[h.len() - 3].high,
            time: h[h.len() - 2].close_time,
            direction: FvgDirection::Bullish,
            filled: false,
        }),
{
    let n = h.len() as int;
    let (c1, c2, c3) = (h[n - 3], h[n - 2], h[n - 1]);
    let x = bullish_gap(c1, c2, c3, cfg).unwrap();
    let r = g.push(x);
    assert(record_gap(record_gap(g, bullish_gap(c1, c2, c3, cfg)), bearish_gap(c1, c2, c3, cfg)) == r);
    let f = refresh_gaps(r, c3);
    assert(f.last() == refresh_gap(x, c3));
    assert(refresh_gap(x, c3) == x);
    law_cap_keeps_newest(f, 20);
    let k = keep_last(f, 20);
    assert(k.last() == f.last());
    lemma_drop_filled(k);
}

/// When the last three candles form a bearish gap (the first candle's low
/// lies above the third's high by at least the minimum pips) not yet
/// recorded, the detection step records it last, unfilled, from the third
/// candle's high to the first candle's low.
pub proof fn law_new_bearish_gap_is_last(g: Seq<FairValueGap>, h: Seq<Candle>, cfg: IctConfig)
    requires
        h.len() >= 3,
        candle_valid(h[h.len() - 3]),
        candle_valid(h[h.len() - 1]),
        bearish_gap(h[h.len() - 3], h[h.len() - 2], h[h.len() - 1], cfg) is Some,
        !crate::spec::has_gap(g, h[h.len() - 2].close_time, FvgDirection::Bearish),
    ensures
        detect_gaps(g, h, cfg).len() > 0,
        detect_gaps(g, h, cfg).last() == (FairValueGap {
            top: h[h.len() - 3].low,
            bottom: h[h.len() - 1].high,
            time: h[h.len() - 2].close_time,
            direction: FvgDirection::Bearish,
            filled: false,
        }),
{
    let n = h.len() as int;
    let (c1, c2, c3) = (h[n - 3], h[n - 2], h[n - 1]);
    let x = bearish_gap(c1, c2, c3, cfg).unwrap();
    let r = g.push(x);
    assert(record_gap(g, bullish_gap(c1, c2, c3, cfg)) == g);
    assert(record_gap(record_gap(g, bullish_gap(c1, c2, c3, cfg)), bearish_gap(c1, c2, c3, cfg)) == r);
    let f = refresh_gaps(r, c3);
    assert(f.last() == refresh_gap(x, c3));
    assert(refresh_gap(x, c3) == x);
    law_cap_keeps_newest(f, 20);
    let k = keep_last(f, 20);
    assert(k.last() == f.last());
    lemma_drop_filled(k);
}

/// The history after `c` is accepted.
pub open spec fn accepted_history(s: AnalysisState, c: Candle, cfg: IctConfig) -> Seq<Candle> {
    keep_last(s.candle_history.push(c), cfg.max_candle_history as nat)
}

/// When an accepted candle completes a bullish gap of valid candles that is
/// not yet recorded, processing it records that gap last, unfilled.
pub proof fn law_candle_records_bullish_gap(s: AnalysisState, c: Candle, cfg: IctConfig)
    requires
        !is_stale(s.last_candle_time, c),
        accepted_history(s, c, cfg).len() >= 3,
        candle_valid(accepted_history(s, c, cfg)[accepted_history(s, c, cfg).len() - 3]),
        candle_valid(accepted_history(s, c, cfg)[accepted_history(s, c, cfg).len() - 1]),
        bullish_gap(
            accepted_history(s, c, cfg)[accepted_history(s, c, cfg).len() - 3],
            accepted_history(s, c, cfg)[accepted_history(s, c, cfg).len() - 2],
            accepted_history(s, c, cfg)[accepted_history(s, c, cfg).len() - 1],
            cfg,
        ) is Some,
        !crate::spec::has_gap(
            s.fair_value_gaps,
            accepted_history(s, c, cfg)[accepted_history(s, c, cfg).len() - 2].close_time,
            FvgDirection::Bullish,
        ),
    ensures
        process_candle_spec(s, c, cfg).fair_value_gaps.len() > 0,
        Some(process_candle_spec(s, c, cfg).fair_value_gaps.last()) == bullish_gap(
            accepted_history(s, c, cfg)[accepted_history(s, c, cfg).len() - 3],
            accepted_history(s, c, cfg)[accepted_history(s, c, cfg).len() - 2],
            accepted_history(s, c, cfg)[accepted_history(s, c, cfg).len() - 1],
            cfg,
        ),
{
    law_new_bullish_gap_is_last(s.fair_value_gaps, accepted_history(s, c, cfg), cfg);
}

/// When an accepted candle completes a bearish gap of valid candles that is
/// not yet recorded, processing it records that gap last, unfilled.
pub proof fn law_candle_records_bearish_gap(s: AnalysisState, c: Candle, cfg: IctConfig)
    requires
        !is_stale(s.last_candle_time, c),
        accepted_history(s, c, cfg).len() >= 3,
        candle_valid(accepted_history(s, c, cfg)[accepted_history(s, c, cfg).len() - 3]),
        candle_valid(accepted_history(s, c, cfg)[accepted_history(s, c, cfg).len() - 1]),
        bearish_gap(
            accepted_history(s, c, cfg)[accepted_history(s, c, cfg).len() - 3],
            accepted_history(s, c, cfg)[accepted_history(s, c, cfg).len() - 2],
            accepted_history(s, c, cfg)[accepted_history(s, c, cfg).len() - 1],
            cfg,
        ) is Some,
        !crate::spec::has_gap(
            s.fair_value_gaps,
            accepted_history(s, c, cfg)[accepted_history(s, c, cfg).len() - 2].close_time,
            FvgDirection::Bearish,
        ),
    ensures
        process_candle_spec(s, c, cfg).fair_value_gaps.len() > 0,
        Some(process_candle_spec(s, c, cfg).fair_value_gaps.last()) == bearish_gap(
            accepted_history(s, c, cfg)[accepted_history(s, c, cfg).len() - 3],
            accepted_history(s, c, cfg)[accepted_history(s, c, cfg).len() - 2],
            accepted_history(s, c, cfg)[accepted_history(s, c, cfg).len() - 1],
            cfg,
        ),
{
    law_new_bearish_gap_is_last(s.fair_value_gaps, accepted_history(s, c, cfg), cfg);
}

/// After an accepted candle whose history holds at least three candles, no
/// recorded gap is filled: filled gaps are cleaned up.
pub proof fn law_no_filled_gap_kept(s: AnalysisState, c: Candle, cfg: IctConfig)
    requires
        !is_stale(s.last_candle_time, c),
        keep_last(s.candle_history.push(c), cfg.max_candle_history as nat).len() >= 3,
    ensures
        forall|j: int|
            0 <= j < process_candle_spec(s, c, cfg).fair_value_gaps.len() ==> !(
            #[trigger] process_candle_spec(s, c, cfg).fair_value_gaps[j]).filled,
{
    law_detected_gaps(
        s.fair_value_gaps,
        keep_last(s.candle_history.push(c), cfg.max_candle_history as nat),
        cfg,
    );
}

// ---------------------------------------------------------------- sequences of candles

proof fn lemma_keep_last_push<T>(p: Seq<T>, x: T, m: nat)
    ensures
        keep_last(keep_last(p, m).push(x), m) == keep_last(p.push(x), m),
{
    law_cap_keeps_newest(p, m);
    law_cap_keeps_newest(keep_last(p, m).push(x), m);
    law_cap_keeps_newest(p.push(x), m);
    let a = keep_last(keep_last(p, m).push(x), m);
    let b = keep_last(p.push(x), m);
    assert(a.len() == b.len());
    assert forall|i: int| 0 <= i < a.len() implies a[i] == b[i] by {
        let q = keep_last(p, m).push(x);
        assert(a[i] == q[i + q.len() - a.len()]);
        assert(b[i] == p.push(x)[i + p.len() + 1 - b.len()]);
        if i + q.len() - a.len() < keep_last(p, m).len() {
            assert(q[i + q.len() - a.len()] == keep_last(p, m)[i + q.len() - a.len()]);
        }
    }
    assert(a =~= b);
}

/// Starting from an empty analysis, candles offered in strictly increasing
/// close time are all accepted: the history holds the newest
/// `max_candle_history` of them and the last candle time is the newest one's.
pub proof fn law_increasing_candles_accepted(cs: Seq<Candle>, cfg: IctConfig)
    requires
        times_increasing(cs),
    ensures
        process_candles_spec(empty_state(), cs, cfg).candle_history == keep_last(
            cs,
            cfg.max_candle_history as nat,
        ),
        process_candles_spec(empty_state(), cs, cfg).last_candle_time == if cs.len() == 0 {
            None
        } else {
            Some(cs.last().close_time)
        },
    decreases cs.len(),
{
    if cs.len() == 0 {
        assert(keep_last(cs, cfg.max_candle_history as nat) =~= Seq::<Candle>::empty());
    } else {
        let p = cs.drop_last();
        assert(times_increasing(p)) by {
            assert forall|i: int, j: int| 0 <= i < j < p.len() implies #[trigger] p[i].close_time
                < #[trigger] p[j].close_time by {
                assert(p[i] == cs[i] && p[j] == cs[j]);
            }
        }
        law_increasing_candles_accepted(p, cfg);
        if p.len() > 0 {
            assert(p.last() == cs[cs.len() - 2]);
            assert(cs[cs.len() - 2].close_time < cs[cs.len() - 1].close_time);
        }
        lemma_keep_last_push(p, cs.last(), cfg.max_candle_history as nat);
        assert(p.push(cs.last()) =~= cs);
    }
}


// ---------------------------------------------------------------- swing points

/// Index of the last swing high among the candles at `2 .. end`, if any.
pub open spec fn latest_swing_high(h: Seq<Candle>, end: int) -> Option<int>
    decreases end,
{
    if end <= 2 {
        None
    } else if crate::spec::is_swing_high(h, end - 1) {
        Some(end - 1)
    } else {
        latest_swing_high(h, end - 1)
    }
}

/// Index of the last swing low among the candles at `2 .. end`, if any.
pub open spec fn latest_swing_low(h: Seq<Candle>, end: int) -> Option<int>
    decreases end,
{
    if end <= 2 {
        None
    } else if crate::spec::is_swing_low(h, end - 1) {
        Some(end - 1)
    } else {
        latest_swing_low(h, end - 1)
    }
}

proof fn lemma_scan_tracks_latest(ms: MarketStructure, h: Seq<Candle>, end: int)
    ensures
        scan_structure(ms, h, end).last_swing_high == match latest_swing_high(h, end) {
            Some(j) => Some(crate::model::SwingPoint { price: h[j].high, time: h[j].close_time }),
            None => ms.last_swing_high,
        },
        scan_structure(ms, h, end).last_swing_low == match latest_swing_low(h, end) {
            Some(j) => Some(crate::model::SwingPoint { price: h[j].low, time: h[j].close_time }),
            None => ms.last_swing_low,
        },
    decreases end,
{
    if end > 2 {
        lemma_scan_tracks_latest(ms, h, end - 1);
    }
}

/// The structure update records, as last swing high and last swing low, the
/// latest swing high and the latest swing low of the examined candles (the
/// previous ones when there is none).
pub proof fn law_swing_points_track_latest(ms: MarketStructure, h: Seq<Candle>)
    requires
        h.len() >= 5,
    ensures
        update_structure(ms, h).last_swing_high == match latest_swing_high(h, h.len() - 2) {
            Some(j) => Some(crate::model::SwingPoint { price: h[j].high, time: h[j].close_time }),
            None => ms.last_swing_high,
        },
        update_structure(ms, h).last_swing_low == match latest_swing_low(h, h.len() - 2) {
            Some(j) => Some(crate::model::SwingPoint { price: h[j].low, time: h[j].close_time }),
            None => ms.last_swing_low,
        },
{
    lemma_scan_tracks_latest(ms, h, h.len() - 2);
}

// ---------------------------------------------------------------- average range

/// When every candle range of a window lies between `lo` and `hi`, the sum of
/// the ranges lies between `lo` and `hi` times the window's size: the average
/// range lies between the smallest and the largest range.
pub proof fn law_range_sum_between(h: Seq<Candle>, start: int, end: int, lo: int, hi: int)
    requires
        0 <= start <= end <= h.len(),
        forall|j: int| start <= j < end ==> lo <= #[trigger] candle_range(h[j]) <= hi,
    ensures
        lo * (end - start) <= range_sum(h, start, end) <= hi * (end - start),
    decreases end - start,
{
    if end > start {
        law_range_sum_between(h, start, end - 1, lo, hi);
        assert(lo <= candle_range(h[end - 1]) <= hi);
        assert(lo * (end - start) == lo * (end - 1 - start) + lo) by (nonlinear_arith);
        assert(hi * (end - start) == hi * (end - 1 - start) + hi) by (nonlinear_arith);
    } else {
        assert(lo * (end - start) == 0 && hi * (end - start) == 0) by (nonlinear_arith)
            requires
                end == start,
        ;
    }
}


// ---------------------------------------------------------------- new order blocks

/// The candle at `j` qualifies as an order block.
pub open spec fn qualifies(h: Seq<Candle>, j: int, cfg: IctConfig) -> bool {
    crate::spec::block_candidate(h, j, cfg) is Some
}

pub(crate) proof fn lemma_scan_blocks_origin(b: Seq<OrderBlock>, h: Seq<Candle>, cfg: IctConfig, end: int)
    ensures
        scan_blocks(b, h, cfg, end).len() <= b.len() + if end > 2 { end - 2 } else { 0 },
        scan_blocks(b, h, cfg, end).len() >= b.len(),
        forall|k: int| 0 <= k < b.len() ==> #[trigger] scan_blocks(b, h, cfg, end)[k] == b[k],
        forall|k: int|
            b.len() <= k < scan_blocks(b, h, cfg, end).len() ==> exists|j: int|
                2 <= j < end && crate::spec::block_candidate(h, j, cfg) == Some(
                    #[trigger] scan_blocks(b, h, cfg, end)[k],
                ),
    decreases end,
{
    if end > 2 {
        lemma_scan_blocks_origin(b, h, cfg, end - 1);
        let r = scan_blocks(b, h, cfg, end - 1);
        let n = scan_blocks(b, h, cfg, end);
        assert forall|k: int| 0 <= k < b.len() implies #[trigger] n[k] == b[k] by {
            if n.len() > r.len() {
                assert(n[k] == r[k]);
            }
        }
        assert forall|k: int| b.len() <= k < n.len() implies exists|j: int|
            2 <= j < end && crate::spec::block_candidate(h, j, cfg) == Some(#[trigger] n[k]) by {
            if k < r.len() {
                if n.len() > r.len() {
                    assert(n[k] == r[k]);
                }
                let j = choose|j: int| 2 <= j < end - 1 && crate::spec::block_candidate(h, j, cfg) == Some(r[k]);
                assert(crate::spec::block_candidate(h, j, cfg) == Some(n[k]));
            } else {
                assert(crate::spec::block_candidate(h, end - 1, cfg) == Some(n[k]));
            }
        }
    }
}

proof fn lemma_scan_blocks_keeps(b: Seq<OrderBlock>, h: Seq<Candle>, cfg: IctConfig, e1: int, e2: int, x: OrderBlock)
    requires
        e1 <= e2,
        scan_blocks(b, h, cfg, e1).contains(x),
    ensures
        scan_blocks(b, h, cfg, e2).contains(x),
    decreases e2 - e1,
{
    if e1 < e2 && e2 > 2 {
        lemma_scan_blocks_keeps(b, h, cfg, e1, e2 - 1, x);
        let r = scan_blocks(b, h, cfg, e2 - 1);
        let k = choose|k: int| 0 <= k < r.len() && r[k] == x;
        if scan_blocks(b, h, cfg, e2).len() > r.len() {
            assert(scan_blocks(b, h, cfg, e2)[k] == r[k]);
        }
    }
}

/// On a history in increasing close time, a candle from the third to the
/// third-last that qualifies as an order block, and whose time no block held
/// before has, is recorded by the identification step (when the cap of
/// fifteen drops nothing): with its high, low, time, direction and volume,
/// tested exactly when the last candle reaches it. Every recorded block is
/// one held before or a qualifying candle from the third to the third-last.
pub proof fn law_identified_blocks(b: Seq<OrderBlock>, h: Seq<Candle>, cfg: IctConfig, i: int)
    requires
        h.len() >= 5,
        times_increasing(h),
        2 <= i < h.len() - 2,
        qualifies(h, i, cfg),
        !crate::spec::has_block(b, h[i].close_time),
        b.len() + h.len() - 4 <= 15,
    ensures
        identify_blocks(b, h, cfg).contains(
            crate::spec::refresh_block(crate::spec::block_candidate(h, i, cfg).unwrap(), h[h.len() - 1]),
        ),
        forall|k: int|
            0 <= k < identify_blocks(b, h, cfg).len() ==> (exists|m: int|
                0 <= m < b.len() && (#[trigger] identify_blocks(b, h, cfg)[k]).time == b[m].time)
                || (exists|j: int|
                2 <= j < h.len() - 2 && qualifies(h, j, cfg) && identify_blocks(b, h, cfg)[k].time
                    == h[j].close_time),
{
    let x = crate::spec::block_candidate(h, i, cfg).unwrap();
    let r = scan_blocks(b, h, cfg, i);
    lemma_scan_blocks_origin(b, h, cfg, i);
    assert(!crate::spec::has_block(r, x.time)) by {
        assert forall|k: int| 0 <= k < r.len() implies #[trigger] r[k].time != x.time by {
            if k < b.len() {
                assert(r[k] == b[k]);
            } else {
                let j = choose|j: int| 2 <= j < i && crate::spec::block_candidate(h, j, cfg) == Some(r[k]);
                assert(h[j].close_time < h[i].close_time);
            }
        }
    }
    assert(scan_blocks(b, h, cfg, i + 1) == r.push(x));
    assert(scan_blocks(b, h, cfg, i + 1)[r.len() as int] == x);
    lemma_scan_blocks_keeps(b, h, cfg, i + 1, h.len() - 2, x);
    let sc = scan_blocks(b, h, cfg, h.len() - 2);
    lemma_scan_blocks_origin(b, h, cfg, h.len() - 2);
    let f = refresh_blocks(sc, h[h.len() - 1]);
    law_cap_keeps_newest(f, 15);
    assert(keep_last(f, 15) == f);
    let k0 = choose|k: int| 0 <= k < sc.len() && sc[k] == x;
    assert(f[k0] == crate::spec::refresh_block(x, h[h.len() - 1]));
    assert forall|k: int| 0 <= k < f.len() implies (exists|m: int|
        0 <= m < b.len() && (#[trigger] f[k]).time == b[m].time) || (exists|j: int|
        2 <= j < h.len() - 2 && qualifies(h, j, cfg) && f[k].time == h[j].close_time) by {
        if k < b.len() {
            assert(sc[k] == b[k]);
        } else {
            let j = choose|j: int| 2 <= j < h.len() - 2 && crate::spec::block_candidate(h, j, cfg) == Some(sc[k]);
            assert(qualifies(h, j, cfg));
        }
    }
}

} // verus!
