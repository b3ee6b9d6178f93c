//! Laws stated directly over the fields of candles, gaps, blocks and orders:
//! what every result of the analysis, the signals and the orders satisfies.
use vstd::prelude::*;
use crate::decimal::decimal_from_i128_with_scale;
use crate::strategy::{
    closes_for, filter_admits, intents_for, IctStrategy, InstrumentFilter, InstrumentState,
    OrderIntent, OrderKind, Side, TimeInForce,
};
use crate::laws::{
    law_signal_well_formed,
    candle_valid, lemma_scan_blocks_origin, law_cap_keeps_newest, law_detected_gaps,
    law_new_bearish_gap_is_last, law_new_bullish_gap_is_last, refreshed_window, same_gap,
};
use crate::model::{
    Candle, FairValueGap, FvgDirection, IctConfig, MarketStructure, OrderBlock, OrderBlockDirection,
    SwingPoint, TrendDirection,
};
use crate::signal::{
    block_signal, first_block_signal, first_gap_signal, gap_signal, signal_spec, SignalView,
};
use crate::spec::{
    bearish_gap, bullish_gap, detect_gaps, identify_blocks, keep_last, process_candle_spec,
    range_sum, record_gap,
    refresh_blocks, refresh_gap, refresh_gaps, scan_blocks, scan_structure, update_structure,
    AnalysisState,
};

verus! {

// ---------------------------------------------------------------- signals

/// Gap `g` offers an entry at price `p` in trend `t`: it is unfilled, lies in
/// the trend's direction, and the price has come back to its edge: at or below
/// the bottom of a bullish gap by at most 0.1%, or at or above the top of a
/// bearish gap by at most 0.1%.
pub open spec fn gap_offers(t: TrendDirection, g: FairValueGap, p: u64) -> bool {
    &&& !g.filled
    &&& {
        ||| t == TrendDirection::Bullish && g.direction == FvgDirection::Bullish && p <= g.bottom
            && p * 1000 >= g.bottom * 999
        ||| t == TrendDirection::Bearish && g.direction == FvgDirection::Bearish && p >= g.top
            && p * 1000 <= g.top * 1001
    }
}

/// Block `b` offers an entry at price `p` in trend `t`: it is untested, lies
/// in the trend's direction, and the price is within 0.2% of the low of a
/// bullish block or of the high of a bearish one.
pub open spec fn block_offers(t: TrendDirection, b: OrderBlock, p: u64) -> bool {
    &&& !b.tested
    &&& {
        ||| t == TrendDirection::Bullish && b.direction == OrderBlockDirection::Bullish && p * 1000
            <= b.low * 1002 && p * 1000 >= b.low * 998
        ||| t == TrendDirection::Bearish && b.direction == OrderBlockDirection::Bearish && p * 1000
            >= b.high * 998 && p * 1000 <= b.high * 1002
    }
}

/// The entry a gap gives at price `p` (signal prices carry eleven decimals):
/// a bullish gap gives a long with its stop 0.5% below the bottom and its
/// target 2% above the price; a bearish gap gives a short with its stop 0.5%
/// above the top and its target 2% below the price.
pub open spec fn gap_entry(g: FairValueGap, p: u64) -> SignalView {
    if g.direction == FvgDirection::Bullish {
        SignalView::Long {
            entry_price: (p * 1000) as u128,
            stop_loss: (g.bottom * 995) as u128,
            take_profit: (p * 1020) as u128,
            reason: "Bullish FVG retest in uptrend"@,
        }
    } else {
        SignalView::Short {
            entry_price: (p * 1000) as u128,
            stop_loss: (g.top * 1005) as u128,
            take_profit: (p * 980) as u128,
            reason: "Bearish FVG retest in downtrend"@,
        }
    }
}

/// The entry a block gives at price `p`: a bullish block gives a long with its
/// stop 1% below the low and its target 3% above the price; a bearish block
/// gives a short with its stop 1% above the high and its target 3% below the
/// price.
pub open spec fn block_entry(b: OrderBlock, p: u64) -> SignalView {
    if b.direction == OrderBlockDirection::Bullish {
        SignalView::Long {
            entry_price: (p * 1000) as u128,
            stop_loss: (b.low * 990) as u128,
            take_profit: (p * 1030) as u128,
            reason: "Bullish order block retest in uptrend"@,
        }
    } else {
        SignalView::Short {
            entry_price: (p * 1000) as u128,
            stop_loss: (b.high * 1010) as u128,
            take_profit: (p * 970) as u128,
            reason: "Bearish order block retest in downtrend"@,
        }
    }
}

proof fn lemma_gap_signal_is_offer(t: TrendDirection, g: FairValueGap, p: u64)
    ensures
        gap_signal(t, g, p) is Some <==> gap_offers(t, g, p),
        gap_offers(t, g, p) ==> gap_signal(t, g, p) == Some(gap_entry(g, p)),
{
}

proof fn lemma_block_signal_is_offer(t: TrendDirection, b: OrderBlock, p: u64)
    ensures
        block_signal(t, b, p) is Some <==> block_offers(t, b, p),
        block_offers(t, b, p) ==> block_signal(t, b, p) == Some(block_entry(b, p)),
{
}

proof fn lemma_first_gap(gaps: Seq<FairValueGap>, t: TrendDirection, p: u64)
    ensures
        first_gap_signal(gaps, t, p) is None <==> forall|i: int|
            0 <= i < gaps.len() ==> !gap_offers(t, #[trigger] gaps[i], p),
        first_gap_signal(gaps, t, p) matches Some(v) ==> exists|i: int|
            0 <= i < gaps.len() && gap_offers(t, #[trigger] gaps[i], p) && v == gap_entry(gaps[i], p)
                && forall|k: int| 0 <= k < i ==> !gap_offers(t, #[trigger] gaps[k], p),
    decreases gaps.len(),
{
    if gaps.len() > 0 {
        let rest = gaps.drop_first();
        lemma_gap_signal_is_offer(t, gaps[0], p);
        lemma_first_gap(rest, t, p);
        assert forall|i: int| 0 <= i < rest.len() implies #[trigger] rest[i] == gaps[i + 1] by {}
        if gap_offers(t, gaps[0], p) {
            assert(first_gap_signal(gaps, t, p) == Some(gap_entry(gaps[0], p)));
        } else {
            assert(first_gap_signal(gaps, t, p) == first_gap_signal(rest, t, p));
            if first_gap_signal(rest, t, p) is None {
                assert forall|i: int| 0 <= i < gaps.len() implies !gap_offers(t, #[trigger] gaps[i], p) by {
                    if i > 0 {
                        assert(gaps[i] == rest[i - 1]);
                    }
                }
            } else {
                let v = first_gap_signal(rest, t, p).unwrap();
                let i = choose|i: int|
                    0 <= i < rest.len() && gap_offers(t, #[trigger] rest[i], p) && v == gap_entry(rest[i], p)
                        && forall|k: int| 0 <= k < i ==> !gap_offers(t, #[trigger] rest[k], p);
                assert(gaps[i + 1] == rest[i]);
                assert forall|k: int| 0 <= k < i + 1 implies !gap_offers(t, #[trigger] gaps[k], p) by {
                    if k > 0 {
                        assert(gaps[k] == rest[k - 1]);
                    }
                }
            }
        }
    }
}

proof fn lemma_first_block(blocks: Seq<OrderBlock>, t: TrendDirection, p: u64)
    ensures
        first_block_signal(blocks, t, p) is None <==> forall|i: int|
            0 <= i < blocks.len() ==> !block_offers(t, #[trigger] blocks[i], p),
        first_block_signal(blocks, t, p) matches Some(v) ==> exists|i: int|
            0 <= i < blocks.len() && block_offers(t, #[trigger] blocks[i], p) && v == block_entry(
                blocks[i],
                p,
            ) && forall|k: int| 0 <= k < i ==> !block_offers(t, #[trigger] blocks[k], p),
    decreases blocks.len(),
{
    if blocks.len() > 0 {
        let rest = blocks.drop_first();
        lemma_block_signal_is_offer(t, blocks[0], p);
        lemma_first_block(rest, t, p);
        assert forall|i: int| 0 <= i < rest.len() implies #[trigger] rest[i] == blocks[i + 1] by {}
        if block_offers(t, blocks[0], p) {
            assert(first_block_signal(blocks, t, p) == Some(block_entry(blocks[0], p)));
        } else {
            assert(first_block_signal(blocks, t, p) == first_block_signal(rest, t, p));
            if first_block_signal(rest, t, p) is None {
                assert forall|i: int| 0 <= i < blocks.len() implies !block_offers(t, #[trigger] blocks[i], p) by {
                    if i > 0 {
                        assert(blocks[i] == rest[i - 1]);
                    }
                }
            } else {
                let v = first_block_signal(rest, t, p).unwrap();
                let i = choose|i: int|
                    0 <= i < rest.len() && block_offers(t, #[trigger] rest[i], p) && v == block_entry(
                        rest[i],
                        p,
                    ) && forall|k: int| 0 <= k < i ==> !block_offers(t, #[trigger] rest[k], p);
                assert(blocks[i + 1] == rest[i]);
                assert forall|k: int| 0 <= k < i + 1 implies !block_offers(t, #[trigger] blocks[k], p) by {
                    if k > 0 {
                        assert(blocks[k] == rest[k - 1]);
                    }
                }
            }
        }
    }
}

/// Which signal an analysis gives at price `p` (the signal of
/// `IctAnalysisData::generate_signal`): none exactly when no gap and no block
/// offers an entry; otherwise the entry of the first gap that offers one, or,
/// when no gap offers one, the entry of the first block that does. In
/// particular a filled gap or a tested block never gives a signal, and no
/// signal goes against the trend.
pub proof fn law_signal_source(s: AnalysisState, p: u64)
    ensures
        signal_spec(s, p) is None <==> (forall|i: int|
            0 <= i < s.fair_value_gaps.len() ==> !gap_offers(
                s.market_structure.trend,
                #[trigger] s.fair_value_gaps[i],
                p,
            )) && (forall|j: int|
            0 <= j < s.order_blocks.len() ==> !block_offers(
                s.market_structure.trend,
                #[trigger] s.order_blocks[j],
                p,
            )),
        signal_spec(s, p) matches Some(v) ==> {
            ||| exists|i: int|
                0 <= i < s.fair_value_gaps.len() && gap_offers(
                    s.market_structure.trend,
                    #[trigger] s.fair_value_gaps[i],
                    p,
                ) && v == gap_entry(s.fair_value_gaps[i], p) && forall|k: int|
                    0 <= k < i ==> !gap_offers(
                        s.market_structure.trend,
                        #[trigger] s.fair_value_gaps[k],
                        p,
                    )
            ||| (forall|i: int|
                0 <= i < s.fair_value_gaps.len() ==> !gap_offers(
                    s.market_structure.trend,
                    #[trigger] s.fair_value_gaps[i],
                    p,
                )) && exists|j: int|
                0 <= j < s.order_blocks.len() && block_offers(
                    s.market_structure.trend,
                    #[trigger] s.order_blocks[j],
                    p,
                ) && v == block_entry(s.order_blocks[j], p) && forall|k: int|
                    0 <= k < j ==> !block_offers(
                        s.market_structure.trend,
                        #[trigger] s.order_blocks[k],
                        p,
                    )
        },
{
    lemma_first_gap(s.fair_value_gaps, s.market_structure.trend, p);
    lemma_first_block(s.order_blocks, s.market_structure.trend, p);
}

/// With every gap filled and every order block tested there is no signal at
/// any price.
pub proof fn law_no_signal_from_used_patterns(s: AnalysisState, p: u64)
    requires
        forall|i: int| 0 <= i < s.fair_value_gaps.len() ==> (#[trigger] s.fair_value_gaps[i]).filled,
        forall|j: int| 0 <= j < s.order_blocks.len() ==> (#[trigger] s.order_blocks[j]).tested,
    ensures
        signal_spec(s, p) is None,
{
    law_signal_source(s, p);
}

// ---------------------------------------------------------------- market structure

/// The candle at `i` has a lower low than the two candles on each side.
pub open spec fn swing_low_at(h: Seq<Candle>, i: int) -> bool {
    h[i].low < h[i - 2].low && h[i].low < h[i - 1].low && h[i].low < h[i + 1].low && h[i].low < h[i
        + 2].low
}

/// The candle at `i` has a higher high than the two candles on each side.
pub open spec fn swing_high_at(h: Seq<Candle>, i: int) -> bool {
    h[i].high > h[i - 2].high && h[i].high > h[i - 1].high && h[i].high > h[i + 1].high && h[i].high
        > h[i + 2].high
}

/// The candle at `i` is a swing low below the last swing low recorded in `ms`.
pub open spec fn breaks_below(ms: MarketStructure, h: Seq<Candle>, i: int) -> bool {
    swing_low_at(h, i) && match ms.last_swing_low {
        Some(q) => h[i].low < q.price,
        None => false,
    }
}

/// The candle at `i` is a swing high above the last swing high recorded in
/// `ms`.
pub open spec fn breaks_above(ms: MarketStructure, h: Seq<Candle>, i: int) -> bool {
    swing_high_at(h, i) && match ms.last_swing_high {
        Some(q) => h[i].high > q.price,
        None => false,
    }
}

/// A swing low below the last recorded swing low is a downside break of
/// structure: examining that candle records it as the last swing low, marks
/// the break and turns the trend bearish. When it is the last candle the
/// update examines, the update ends bearish.
pub proof fn law_downside_break_turns_bearish(ms: MarketStructure, h: Seq<Candle>, i: int)
    requires
        2 <= i,
        i + 2 < h.len(),
        breaks_below(scan_structure(ms, h, i), h, i),
    ensures
        scan_structure(ms, h, i + 1).trend == TrendDirection::Bearish,
        scan_structure(ms, h, i + 1).break_of_structure,
        scan_structure(ms, h, i + 1).last_swing_low == Some(
            SwingPoint { price: h[i].low, time: h[i].close_time },
        ),
        i == h.len() - 3 ==> update_structure(ms, h).trend == TrendDirection::Bearish,
{
}

/// A swing high above the last recorded swing high is an upside break of
/// structure: unless the same candle also breaks below the last swing low,
/// examining it records it as the last swing high, marks the break and turns
/// the trend bullish. When it is the last candle the update examines, the
/// update ends bullish.
pub proof fn law_upside_break_turns_bullish(ms: MarketStructure, h: Seq<Candle>, i: int)
    requires
        2 <= i,
        i + 2 < h.len(),
        breaks_above(scan_structure(ms, h, i), h, i),
        !breaks_below(scan_structure(ms, h, i), h, i),
    ensures
        scan_structure(ms, h, i + 1).trend == TrendDirection::Bullish,
        scan_structure(ms, h, i + 1).break_of_structure,
        scan_structure(ms, h, i + 1).last_swing_high == Some(
            SwingPoint { price: h[i].high, time: h[i].close_time },
        ),
        i == h.len() - 3 ==> update_structure(ms, h).trend == TrendDirection::Bullish,
{
}

/// A candle that is neither a swing high nor a swing low leaves the
/// structure as it was; a swing point that breaks nothing is recorded but
/// leaves the trend and the break flag as they were.
pub proof fn law_structure_without_break(ms: MarketStructure, h: Seq<Candle>, i: int)
    requires
        2 <= i,
        i + 2 < h.len(),
    ensures
        !swing_high_at(h, i) && !swing_low_at(h, i) ==> scan_structure(ms, h, i + 1)
            == scan_structure(ms, h, i),
        !breaks_above(scan_structure(ms, h, i), h, i) && !breaks_below(scan_structure(ms, h, i), h, i)
            ==> {
            &&& scan_structure(ms, h, i + 1).trend == scan_structure(ms, h, i).trend
            &&& scan_structure(ms, h, i + 1).break_of_structure == scan_structure(
                ms,
                h,
                i,
            ).break_of_structure
        },
        swing_low_at(h, i) ==> scan_structure(ms, h, i + 1).last_swing_low == Some(
            SwingPoint { price: h[i].low, time: h[i].close_time },
        ),
        swing_high_at(h, i) ==> scan_structure(ms, h, i + 1).last_swing_high == Some(
            SwingPoint { price: h[i].high, time: h[i].close_time },
        ),
{
}

// ---------------------------------------------------------------- order blocks

/// The candle `c` reaches block `b`: down to within 0.1% above the low of a
/// bullish block, or up to within 0.1% below the high of a bearish one.
pub open spec fn block_reached(b: OrderBlock, c: Candle) -> bool {
    if b.direction == OrderBlockDirection::Bullish {
        c.low * 1000 <= b.low * 1001
    } else {
        c.high * 1000 >= b.high * 999
    }
}

/// First index of the ten-candle window around `j`.
pub open spec fn window_from(j: int) -> int {
    if j >= 5 { j - 5 } else { 0 }
}

/// One past the last index of the ten-candle window around `j`.
pub open spec fn window_to(j: int, len: int) -> int {
    if j + 5 <= len { j + 5 } else { len }
}

/// Block `x` was recorded from the candle at `j`: it has the candle's high,
/// low, time and volume; the candle is from the third to the third-last, its
/// volume reaches the minimum, its range exceeds one and a half times the
/// average range of the ten-candle window around it; and the block is bullish
/// exactly when the candle closed above its open.
pub open spec fn block_from_candle(x: OrderBlock, h: Seq<Candle>, j: int, cfg: IctConfig) -> bool {
    &&& 2 <= j < h.len() - 2
    &&& x.time == h[j].close_time
    &&& x.high == h[j].high
    &&& x.low == h[j].low
    &&& x.volume == h[j].volume
    &&& h[j].volume >= cfg.order_block_min_volume
    &&& 2 * (h[j].high - h[j].low) * (window_to(j, h.len() as int) - window_from(j)) > 3 * range_sum(
        h,
        window_from(j),
        window_to(j, h.len() as int),
    )
    &&& (x.direction == OrderBlockDirection::Bullish <==> h[j].close > h[j].open)
}

/// Every order block after an identification step on at least five candles
/// is a block held before, with its high, low, time, volume and direction
/// unchanged, or a block recorded from one of the candles; it is tested
/// exactly when it was tested before or the last candle reaches it.
pub proof fn law_block_fields(b: Seq<OrderBlock>, h: Seq<Candle>, cfg: IctConfig)
    requires
        h.len() >= 5,
    ensures
        forall|k: int|
            0 <= k < identify_blocks(b, h, cfg).len() ==> {
                let x = #[trigger] identify_blocks(b, h, cfg)[k];
                ||| exists|m: int|
                    0 <= m < b.len() && x.time == b[m].time && x.high == b[m].high && x.low
                        == b[m].low && x.volume == b[m].volume && x.direction == b[m].direction && (
                    x.tested <==> b[m].tested || block_reached(b[m], h[h.len() - 1]))
                ||| exists|j: int|
                    block_from_candle(x, h, j, cfg) && (x.tested <==> block_reached(
                        x,
                        h[h.len() - 1],
                    ))
            },
{
    let sc = scan_blocks(b, h, cfg, h.len() - 2);
    lemma_scan_blocks_origin(b, h, cfg, h.len() - 2);
    let last = h[h.len() - 1];
    let f = refresh_blocks(sc, last);
    law_cap_keeps_newest(f, 15);
    let kk = keep_last(f, 15);
    assert forall|k: int| 0 <= k < kk.len() implies {
        let x = #[trigger] kk[k];
        ||| exists|m: int|
            0 <= m < b.len() && x.time == b[m].time && x.high == b[m].high && x.low == b[m].low
                && x.volume == b[m].volume && x.direction == b[m].direction && (x.tested <==> b[m].tested
                || block_reached(b[m], last))
        ||| exists|j: int| block_from_candle(x, h, j, cfg) && (x.tested <==> block_reached(x, last))
    } by {
        let idx = k + f.len() - kk.len();
        assert(kk[k] == f[idx]);
        if idx < b.len() {
            assert(sc[idx] == b[idx]);
        } else {
            let j = choose|j: int|
                2 <= j < h.len() - 2 && crate::spec::block_candidate(h, j, cfg) == Some(sc[idx]);
            assert(block_from_candle(kk[k], h, j, cfg));
        }
    }
}

// ---------------------------------------------------------------- fair value gaps

/// After a detection step on at least three candles, no kept gap is one the
/// last candle reaches: every kept bullish gap has its bottom below the last
/// candle's low, and every kept bearish gap has its top above the last
/// candle's high.
pub proof fn law_kept_gaps_unreached(g: Seq<FairValueGap>, h: Seq<Candle>, cfg: IctConfig)
    requires
        h.len() >= 3,
    ensures
        forall|j: int|
            0 <= j < detect_gaps(g, h, cfg).len() ==> {
                let x = #[trigger] detect_gaps(g, h, cfg)[j];
                &&& x.direction == FvgDirection::Bullish ==> x.bottom < h[h.len() - 1].low
                &&& x.direction == FvgDirection::Bearish ==> x.top > h[h.len() - 1].high
            },
{
    law_detected_gaps(g, h, cfg);
    let n = h.len() as int;
    let (c1, c2, c3) = (h[n - 3], h[n - 2], h[n - 1]);
    let r2 = record_gap(record_gap(g, bullish_gap(c1, c2, c3, cfg)), bearish_gap(c1, c2, c3, cfg));
    let f = refresh_gaps(r2, c3);
    law_cap_keeps_newest(f, 20);
    let w = keep_last(f, 20);
    assert(w == refreshed_window(g, h, cfg));
    assert forall|j: int| 0 <= j < detect_gaps(g, h, cfg).len() implies {
        let x = #[trigger] detect_gaps(g, h, cfg)[j];
        &&& x.direction == FvgDirection::Bullish ==> x.bottom < c3.low
        &&& x.direction == FvgDirection::Bearish ==> x.top > c3.high
    } by {
        let x = detect_gaps(g, h, cfg)[j];
        let q = choose|q: int| 0 <= q < w.len() && w[q] == x;
        let m = q + f.len() - w.len();
        assert(w[q] == f[m]);
        assert(f[m] == refresh_gap(r2[m], c3));
    }
}

/// The gap the three candles `c1, c2, c3` form, directly from their prices:
/// bullish when the first high lies below the third low by at least the
/// minimum pips (from that high to that low), bearish when the first low lies
/// above the third high by at least the minimum pips (from that high to that
/// low); dated by the middle candle and unfilled.
pub open spec fn new_gap_of(x: FairValueGap, c1: Candle, c2: Candle, c3: Candle, cfg: IctConfig) -> bool {
    &&& x.time == c2.close_time
    &&& {
        ||| x.direction == FvgDirection::Bullish && c1.high < c3.low && (c3.low - c1.high) * 10000
            >= cfg.fvg_min_gap_pips && x.top == c3.low && x.bottom == c1.high
        ||| x.direction == FvgDirection::Bearish && c1.low > c3.high && (c1.low - c3.high) * 10000
            >= cfg.fvg_min_gap_pips && x.top == c1.low && x.bottom == c3.high
    }
}

/// Every gap kept by a detection step on at least three candles is one held
/// before, with its range, time and direction unchanged, or a gap that the
/// last three candles form.
pub proof fn law_kept_gaps_origin(g: Seq<FairValueGap>, h: Seq<Candle>, cfg: IctConfig)
    requires
        h.len() >= 3,
    ensures
        forall|j: int|
            0 <= j < detect_gaps(g, h, cfg).len() ==> (exists|i: int|
                0 <= i < g.len() && same_gap(#[trigger] detect_gaps(g, h, cfg)[j], g[i]))
                || new_gap_of(
                detect_gaps(g, h, cfg)[j],
                h[h.len() - 3],
                h[h.len() - 2],
                h[h.len() - 1],
                cfg,
            ),
{
    law_detected_gaps(g, h, cfg);
}

/// Three valid candles that form a gap not yet recorded (in its direction at
/// the middle candle's time) make the detection step record it last: for a
/// bullish gap from the first candle's high to the third candle's low, for a
/// bearish one from the third candle's high to the first candle's low.
pub proof fn law_new_gap_recorded_last(g: Seq<FairValueGap>, h: Seq<Candle>, cfg: IctConfig, x: FairValueGap)
    requires
        h.len() >= 3,
        candle_valid(h[h.len() - 3]),
        candle_valid(h[h.len() - 1]),
        new_gap_of(x, h[h.len() - 3], h[h.len() - 2], h[h.len() - 1], cfg),
        !x.filled,
        !crate::spec::has_gap(g, x.time, x.direction),
    ensures
        detect_gaps(g, h, cfg).len() > 0,
        detect_gaps(g, h, cfg).last() == x,
{
    if x.direction == FvgDirection::Bullish {
        law_new_bullish_gap_is_last(g, h, cfg);
    } else {
        law_new_bearish_gap_is_last(g, h, cfg);
    }
}

// ---------------------------------------------------------------- orders

/// Order `o` is the strategy's market, immediate-or-cancel order for
/// instrument state `s`: same exchange and instrument, for the maximum
/// position size, at the entry price of the signal the instrument's analysis
/// gives at its current price, buying on a long signal and selling on a
/// short one.
pub open spec fn order_for_signal(o: OrderIntent, st: IctStrategy, s: InstrumentState) -> bool {
    &&& o.exchange == s.exchange
    &&& o.instrument == s.instrument
    &&& o.strategy == st.id
    &&& o.quantity == st.config.max_position_size
    &&& o.kind == OrderKind::Market
    &&& o.time_in_force == TimeInForce::ImmediateOrCancel
    &&& match s.price {
        Some(p) => match signal_spec(s.data.ict_data@, p) {
            Some(v) => {
                &&& (o.side == Side::Buy <==> v is Long)
                &&& o.price == decimal_from_i128_with_scale((p * 1000) as i128, 11)
            },
            None => false,
        },
        None => false,
    }
}

/// Instrument state `s` has a price at which its analysis gives a signal.
pub open spec fn has_signal(s: InstrumentState) -> bool {
    match s.price {
        Some(p) => signal_spec(s.data.ict_data@, p) is Some,
        None => false,
    }
}

/// Every order `generate_algo_orders` draws is the strategy's market,
/// immediate-or-cancel order for one of the instruments with a signal, for
/// the maximum position size, at the signal's entry price, on the signal's
/// side; and there is one order per instrument with a signal, in order.
pub proof fn law_orders_from_signals(st: IctStrategy, states: Seq<InstrumentState>)
    ensures
        forall|k: int|
            0 <= k < intents_for(st, states).len() ==> exists|i: int|
                0 <= i < states.len() && order_for_signal(
                    #[trigger] intents_for(st, states)[k],
                    st,
                    #[trigger] states[i],
                ),
        intents_for(st, states).len() <= states.len(),
        (forall|i: int| 0 <= i < states.len() ==> has_signal(#[trigger] states[i])) ==> intents_for(
            st,
            states,
        ).len() == states.len(),
        (forall|i: int| 0 <= i < states.len() ==> !has_signal(#[trigger] states[i])) ==> intents_for(
            st,
            states,
        ).len() == 0,
    decreases states.len(),
{
    if states.len() > 0 {
        let init = states.drop_last();
        law_orders_from_signals(st, init);
        let s = states.last();
        let rest = intents_for(st, init);
        let all = intents_for(st, states);
        assert forall|i: int| 0 <= i < init.len() implies #[trigger] init[i] == states[i] by {}
        if (forall|i: int| 0 <= i < states.len() ==> has_signal(#[trigger] states[i])) {
            assert forall|i: int| 0 <= i < init.len() implies has_signal(#[trigger] init[i]) by {
                assert(init[i] == states[i]);
            }
            assert(has_signal(states[states.len() - 1]));
        }
        if (forall|i: int| 0 <= i < states.len() ==> !has_signal(#[trigger] states[i])) {
            assert forall|i: int| 0 <= i < init.len() implies !has_signal(#[trigger] init[i]) by {
                assert(init[i] == states[i]);
            }
            assert(!has_signal(states[states.len() - 1]));
        }
        assert forall|k: int| 0 <= k < all.len() implies exists|i: int|
            0 <= i < states.len() && order_for_signal(#[trigger] all[k], st, #[trigger] states[i]) by {
            if k < rest.len() {
                assert(all[k] == rest[k]);
                let i = choose|i: int|
                    0 <= i < init.len() && order_for_signal(#[trigger] rest[k], st, #[trigger] init[i]);
                assert(states[i] == init[i]);
            } else {
                let p = s.price.unwrap();
                law_signal_well_formed(s.data.ict_data@, p);
                assert(order_for_signal(all[k], st, states[states.len() - 1]));
            }
        }
    }
}

/// Order `o` is the strategy's market, immediate-or-cancel order closing the
/// position of instrument state `s`, which filter `f` admits: same exchange
/// and instrument, on the side opposite the position, at the current price,
/// for the whole (non-empty) position.
pub open spec fn order_closes(o: OrderIntent, st: IctStrategy, f: InstrumentFilter, s: InstrumentState) -> bool {
    &&& filter_admits(f, s.exchange, s.instrument)
    &&& o.exchange == s.exchange
    &&& o.instrument == s.instrument
    &&& o.strategy == st.id
    &&& o.kind == OrderKind::Market
    &&& o.time_in_force == TimeInForce::ImmediateOrCancel
    &&& match (s.price, s.position) {
        (Some(p), Some(pos)) => {
            &&& pos.quantity > 0
            &&& o.side != pos.side
            &&& o.price == decimal_from_i128_with_scale(p as i128, 8)
            &&& o.quantity == decimal_from_i128_with_scale(pos.quantity as i128, 8)
        },
        _ => false,
    }
}

/// Every order `close_positions_requests` draws closes the position of one
/// admitted instrument: opposite side, current price, whole position.
pub proof fn law_close_orders(st: IctStrategy, f: InstrumentFilter, states: Seq<InstrumentState>)
    ensures
        forall|k: int|
            0 <= k < closes_for(st, f, states).len() ==> exists|i: int|
                0 <= i < states.len() && order_closes(
                    #[trigger] closes_for(st, f, states)[k],
                    st,
                    f,
                    #[trigger] states[i],
                ),
        closes_for(st, f, states).len() <= states.len(),
    decreases states.len(),
{
    if states.len() > 0 {
        let init = states.drop_last();
        law_close_orders(st, f, init);
        let rest = closes_for(st, f, init);
        let all = closes_for(st, f, states);
        assert forall|k: int| 0 <= k < all.len() implies exists|i: int|
            0 <= i < states.len() && order_closes(#[trigger] all[k], st, f, #[trigger] states[i]) by {
            if k < rest.len() {
                assert(all[k] == rest[k]);
                let i = choose|i: int|
                    0 <= i < init.len() && order_closes(#[trigger] rest[k], st, f, #[trigger] init[i]);
                assert(states[i] == init[i]);
            } else {
                assert(order_closes(all[k], st, f, states[states.len() - 1]));
            }
        }
    }
}

// ---------------------------------------------------------------- accepting candles

/// The candle closes no later than the last accepted candle.
pub open spec fn closes_no_later(last: Option<i64>, c: Candle) -> bool {
    match last {
        Some(t) => c.close_time <= t,
        None => false,
    }
}

/// A candle that closes no later than the last accepted one changes nothing;
/// any other candle is accepted: its close time becomes the last candle time,
/// it becomes the newest candle of the history (when the history holds any),
/// and the history holds at most `max_candle_history` candles, dropping the
/// oldest first.
pub proof fn law_candle_acceptance(s: AnalysisState, c: Candle, cfg: IctConfig)
    ensures
        closes_no_later(s.last_candle_time, c) ==> process_candle_spec(s, c, cfg) == s,
        !closes_no_later(s.last_candle_time, c) ==> {
            let t = process_candle_spec(s, c, cfg);
            &&& t.last_candle_time == Some(c.close_time)
            &&& t.candle_history.len() <= cfg.max_candle_history
            &&& t.candle_history.len() <= s.candle_history.len() + 1
            &&& cfg.max_candle_history > 0 ==> t.candle_history.len() > 0 && t.candle_history.last()
                == c
            &&& forall|i: int|
                0 <= i < t.candle_history.len() - 1 ==> #[trigger] t.candle_history[i]
                    == s.candle_history[i + s.candle_history.len() + 1 - t.candle_history.len()]
        },
{
    law_cap_keeps_newest(s.candle_history.push(c), cfg.max_candle_history as nat);
    if !closes_no_later(s.last_candle_time, c) {
        let t = process_candle_spec(s, c, cfg);
        let full = s.candle_history.push(c);
        assert forall|i: int| 0 <= i < t.candle_history.len() - 1 implies #[trigger] t.candle_history[i]
            == s.candle_history[i + s.candle_history.len() + 1 - t.candle_history.len()] by {
            assert(t.candle_history[i] == full[i + full.len() - t.candle_history.len()]);
        }
    }
}

} // verus!
