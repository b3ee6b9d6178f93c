//! Mathematical description of the candle analysis.
//!
//! Each function here says what one step of the analysis produces from the
//! state before it; the executable code in `analysis` is proved to compute
//! exactly these values.
use vstd::prelude::*;
use crate::model::{
    initial_structure, Candle, FairValueGap, FvgDirection, IctConfig, MarketStructure, OrderBlock,
    OrderBlockDirection, SwingPoint, TrendDirection, PIPS_PER_PRICE,
};

verus! {

/// The state of an analysis: history, recorded patterns, structure and the
/// time of the last accepted candle.
pub struct AnalysisState {
    pub candle_history: Seq<Candle>,
    pub fair_value_gaps: Seq<FairValueGap>,
    pub order_blocks: Seq<OrderBlock>,
    pub market_structure: MarketStructure,
    pub last_candle_time: Option<i64>,
}

/// The state before any candle has been seen.
pub open spec fn empty_state() -> AnalysisState {
    AnalysisState {
        candle_history: Seq::empty(),
        fair_value_gaps: Seq::empty(),
        order_blocks: Seq::empty(),
        market_structure: initial_structure(),
        last_candle_time: None,
    }
}

/// The last `n` elements of `s` (all of `s` when it is shorter).
pub open spec fn keep_last<T>(s: Seq<T>, n: nat) -> Seq<T> {
    if s.len() > n {
        s.subrange(s.len() - n, s.len() as int)
    } else {
        s
    }
}

/// Most fair value gaps kept after an analysis step.
pub open spec fn max_gaps() -> nat {
    20
}

/// Most order blocks kept after an analysis step.
pub open spec fn max_blocks() -> nat {
    15
}

/// A candle closing no later than the last accepted one is ignored.
pub open spec fn is_stale(last: Option<i64>, candle: Candle) -> bool {
    match last {
        Some(t) => t >= candle.close_time,
        None => false,
    }
}

// ---------------------------------------------------------------- fair value gaps

/// The bullish gap formed by three consecutive candles, if any: the first
/// candle's high lies below the third candle's low by at least the minimum
/// number of pips.
pub open spec fn bullish_gap(c1: Candle, c2: Candle, c3: Candle, cfg: IctConfig) -> Option<FairValueGap> {
    if c1.high < c3.low && (c3.low - c1.high) * PIPS_PER_PRICE >= cfg.fvg_min_gap_pips {
        Some(FairValueGap {
            top: c3.low,
            bottom: c1.high,
            time: c2.close_time,
            direction: FvgDirection::Bullish,
            filled: false,
        })
    } else {
        None
    }
}

/// The bearish gap formed by three consecutive candles, if any: the first
/// candle's low lies above the third candle's high by at least the minimum
/// number of pips.
pub open spec fn bearish_gap(c1: Candle, c2: Candle, c3: Candle, cfg: IctConfig) -> Option<FairValueGap> {
    if c1.low > c3.high && (c1.low - c3.high) * PIPS_PER_PRICE >= cfg.fvg_min_gap_pips {
        Some(FairValueGap {
            top: c1.low,
            bottom: c3.high,
            time: c2.close_time,
            direction: FvgDirection::Bearish,
            filled: false,
        })
    } else {
        None
    }
}

/// Some recorded gap has this time and direction.
pub open spec fn has_gap(gaps: Seq<FairValueGap>, time: i64, direction: FvgDirection) -> bool {
    exists|i: int| 0 <= i < gaps.len() && #[trigger] gaps[i].time == time && gaps[i].direction == direction
}

/// Appends a candidate gap unless one with the same time and direction is
/// already recorded.
pub open spec fn record_gap(gaps: Seq<FairValueGap>, candidate: Option<FairValueGap>) -> Seq<FairValueGap> {
    match candidate {
        Some(g) => if has_gap(gaps, g.time, g.direction) { gaps } else { gaps.push(g) },
        None => gaps,
    }
}

/// Price has come back into the gap: down to the bottom of a bullish gap, or
/// up to the top of a bearish one.
pub open spec fn gap_filled_by(g: FairValueGap, c: Candle) -> bool {
    match g.direction {
        FvgDirection::Bullish => c.low <= g.bottom,
        FvgDirection::Bearish => c.high >= g.top,
    }
}

/// The gap with its filled flag updated by the current candle.
pub open spec fn refresh_gap(g: FairValueGap, c: Candle) -> FairValueGap {
    FairValueGap {
        top: g.top,
        bottom: g.bottom,
        time: g.time,
        direction: g.direction,
        filled: g.filled || gap_filled_by(g, c),
    }
}

/// All gaps refreshed by the current candle.
pub open spec fn refresh_gaps(gaps: Seq<FairValueGap>, c: Candle) -> Seq<FairValueGap> {
    gaps.map_values(|g: FairValueGap| refresh_gap(g, c))
}

/// The gaps of `gaps` that are not filled, in order: a filled gap offers no
/// further entries and is cleaned up.
pub open spec fn drop_filled(gaps: Seq<FairValueGap>) -> Seq<FairValueGap>
    decreases gaps.len(),
{
    if gaps.len() == 0 {
        gaps
    } else {
        let rest = drop_filled(gaps.drop_last());
        if gaps.last().filled {
            rest
        } else {
            rest.push(gaps.last())
        }
    }
}

/// The gaps after one detection step. Nothing happens on fewer than three
/// candles. Otherwise the gaps of the last three candles are recorded, all
/// gaps are refreshed by the last candle, only the newest `max_gaps()` are
/// kept, and the filled ones among them are removed.
pub open spec fn detect_gaps(gaps: Seq<FairValueGap>, h: Seq<Candle>, cfg: IctConfig) -> Seq<FairValueGap> {
    if h.len() < 3 {
        gaps
    } else {
        let n = h.len() as int;
        let c1 = h[n - 3];
        let c2 = h[n - 2];
        let c3 = h[n - 1];
        let recorded = record_gap(
            record_gap(gaps, bullish_gap(c1, c2, c3, cfg)),
            bearish_gap(c1, c2, c3, cfg),
        );
        drop_filled(keep_last(refresh_gaps(recorded, c3), max_gaps()))
    }
}

// ---------------------------------------------------------------- order blocks

/// First index of the averaging window around `center`.
pub open spec fn window_start(center: int, lookback: int) -> int {
    if center >= lookback / 2 {
        center - lookback / 2
    } else {
        0
    }
}

/// One past the last index of the averaging window around `center`.
pub open spec fn window_end(center: int, lookback: int, len: int) -> int {
    if center + lookback / 2 <= len {
        center + lookback / 2
    } else {
        len
    }
}

/// The range (high minus low) of a candle.
pub open spec fn candle_range(c: Candle) -> int {
    c.high - c.low
}

/// Sum of the ranges of `h[start..end]`.
pub open spec fn range_sum(h: Seq<Candle>, start: int, end: int) -> int
    decreases end - start,
{
    if end <= start {
        0
    } else {
        range_sum(h, start, end - 1) + candle_range(h[end - 1])
    }
}

/// Number of candles around an order block candidate over which the
/// average range is taken.
pub open spec fn block_lookback() -> int {
    10
}

/// The order block candle at index `i`, if any: its volume reaches the
/// minimum and its range exceeds one and a half times the average range of
/// the window around it.
pub open spec fn block_candidate(h: Seq<Candle>, i: int, cfg: IctConfig) -> Option<OrderBlock> {
    let c = h[i];
    let start = window_start(i, block_lookback());
    let end = window_end(i, block_lookback(), h.len() as int);
    if c.volume >= cfg.order_block_min_volume && 2 * candle_range(c) * (end - start) > 3 * range_sum(
        h,
        start,
        end,
    ) {
        Some(OrderBlock {
            high: c.high,
            low: c.low,
            time: c.close_time,
            direction: if c.close > c.open {
                OrderBlockDirection::Bullish
            } else {
                OrderBlockDirection::Bearish
            },
            volume: c.volume,
            tested: false,
        })
    } else {
        None
    }
}

/// Some recorded order block has this time.
pub open spec fn has_block(blocks: Seq<OrderBlock>, time: i64) -> bool {
    exists|i: int| 0 <= i < blocks.len() && #[trigger] blocks[i].time == time
}

/// Appends a candidate block unless one with the same time is recorded.
pub open spec fn record_block(blocks: Seq<OrderBlock>, candidate: Option<OrderBlock>) -> Seq<OrderBlock> {
    match candidate {
        Some(b) => if has_block(blocks, b.time) { blocks } else { blocks.push(b) },
        None => blocks,
    }
}

/// The blocks after examining the candidates at indices `2 .. end`, in order.
pub open spec fn scan_blocks(blocks: Seq<OrderBlock>, h: Seq<Candle>, cfg: IctConfig, end: int) -> Seq<OrderBlock>
    decreases end,
{
    if end <= 2 {
        blocks
    } else {
        record_block(scan_blocks(blocks, h, cfg, end - 1), block_candidate(h, end - 1, cfg))
    }
}

/// Price has come back to the block, within a tenth of a percent: down to the
/// low of a bullish block, or up to the high of a bearish one.
pub open spec fn block_tested_by(b: OrderBlock, c: Candle) -> bool {
    match b.direction {
        OrderBlockDirection::Bullish => c.low * 1000 <= b.low * 1001,
        OrderBlockDirection::Bearish => c.high * 1000 >= b.high * 999,
    }
}

/// The block with its tested flag updated by the current candle.
pub open spec fn refresh_block(b: OrderBlock, c: Candle) -> OrderBlock {
    OrderBlock {
        high: b.high,
        low: b.low,
        time: b.time,
        direction: b.direction,
        volume: b.volume,
        tested: b.tested || block_tested_by(b, c),
    }
}

/// All blocks refreshed by the current candle.
pub open spec fn refresh_blocks(blocks: Seq<OrderBlock>, c: Candle) -> Seq<OrderBlock> {
    blocks.map_values(|b: OrderBlock| refresh_block(b, c))
}

/// The order blocks after one identification step: nothing happens on fewer
/// than five candles; otherwise the candidates at indices `2 .. len - 2` are
/// recorded, all blocks are refreshed by the last candle, and only the newest
/// `max_blocks()` are kept.
pub open spec fn identify_blocks(blocks: Seq<OrderBlock>, h: Seq<Candle>, cfg: IctConfig) -> Seq<OrderBlock> {
    if h.len() < 5 {
        blocks
    } else {
        keep_last(
            refresh_blocks(scan_blocks(blocks, h, cfg, h.len() - 2), h[h.len() - 1]),
            max_blocks(),
        )
    }
}

// ---------------------------------------------------------------- market structure

/// The candle at `i` has a higher high than the two candles on each side.
pub open spec fn is_swing_high(h: Seq<Candle>, i: int) -> bool {
    &&& h[i].high > h[i - 2].high
    &&& h[i].high > h[i - 1].high
    &&& h[i].high > h[i + 1].high
    &&& h[i].high > h[i + 2].high
}

/// The candle at `i` has a lower low than the two candles on each side.
pub open spec fn is_swing_low(h: Seq<Candle>, i: int) -> bool {
    &&& h[i].low < h[i - 2].low
    &&& h[i].low < h[i - 1].low
    &&& h[i].low < h[i + 1].low
    &&& h[i].low < h[i + 2].low
}

/// A new swing high above the previous one breaks structure to the upside.
pub open spec fn breaks_high(ms: MarketStructure, c: Candle) -> bool {
    match ms.last_swing_high {
        Some(p) => c.high > p.price,
        None => false,
    }
}

/// A new swing low below the previous one breaks structure to the downside.
pub open spec fn breaks_low(ms: MarketStructure, c: Candle) -> bool {
    match ms.last_swing_low {
        Some(p) => c.low < p.price,
        None => false,
    }
}

/// The structure after a swing high at candle `c`.
pub open spec fn after_swing_high(ms: MarketStructure, c: Candle) -> MarketStructure {
    MarketStructure {
        trend: if breaks_high(ms, c) { TrendDirection::Bullish } else { ms.trend },
        last_swing_high: Some(SwingPoint { price: c.high, time: c.close_time }),
        last_swing_low: ms.last_swing_low,
        break_of_structure: ms.break_of_structure || breaks_high(ms, c),
    }
}

/// The structure after a swing low at candle `c`.
pub open spec fn after_swing_low(ms: MarketStructure, c: Candle) -> MarketStructure {
    MarketStructure {
        trend: if breaks_low(ms, c) { TrendDirection::Bearish } else { ms.trend },
        last_swing_high: ms.last_swing_high,
        last_swing_low: Some(SwingPoint { price: c.low, time: c.close_time }),
        break_of_structure: ms.break_of_structure || breaks_low(ms, c),
    }
}

/// The structure after examining the candle at index `i`: first as a swing
/// high, then as a swing low.
pub open spec fn structure_step(ms: MarketStructure, h: Seq<Candle>, i: int) -> MarketStructure {
    let ms1 = if is_swing_high(h, i) { after_swing_high(ms, h[i]) } else { ms };
    if is_swing_low(h, i) { after_swing_low(ms1, h[i]) } else { ms1 }
}

/// The structure after examining the candles at indices `2 .. end`, in order.
pub open spec fn scan_structure(ms: MarketStructure, h: Seq<Candle>, end: int) -> MarketStructure
    decreases end,
{
    if end <= 2 {
        ms
    } else {
        structure_step(scan_structure(ms, h, end - 1), h, end - 1)
    }
}

/// The structure after one update: the candles at indices `2 .. len - 2` are
/// examined in order; nothing happens on fewer than five candles.
pub open spec fn update_structure(ms: MarketStructure, h: Seq<Candle>) -> MarketStructure {
    if h.len() < 5 {
        ms
    } else {
        scan_structure(ms, h, h.len() - 2)
    }
}

// ---------------------------------------------------------------- one candle

/// The state after a candle is offered to the analysis.
///
/// A stale candle (closing no later than the last accepted one) changes
/// nothing. Otherwise the candle is appended, the history is cut to its newest
/// `max_candle_history` candles, its close time becomes the last candle time,
/// and, once at least three candles are held, gaps, order blocks and structure
/// are updated from the new history.
pub open spec fn process_candle_spec(s: AnalysisState, c: Candle, cfg: IctConfig) -> AnalysisState {
    if is_stale(s.last_candle_time, c) {
        s
    } else {
        let h = keep_last(s.candle_history.push(c), cfg.max_candle_history as nat);
        if h.len() >= 3 {
            AnalysisState {
                candle_history: h,
                fair_value_gaps: detect_gaps(s.fair_value_gaps, h, cfg),
                order_blocks: identify_blocks(s.order_blocks, h, cfg),
                market_structure: update_structure(s.market_structure, h),
                last_candle_time: Some(c.close_time),
            }
        } else {
            AnalysisState {
                candle_history: h,
                fair_value_gaps: s.fair_value_gaps,
                order_blocks: s.order_blocks,
                market_structure: s.market_structure,
                last_candle_time: Some(c.close_time),
            }
        }
    }
}

/// The state after a sequence of candles is offered in order.
pub open spec fn process_candles_spec(s: AnalysisState, cs: Seq<Candle>, cfg: IctConfig) -> AnalysisState
    decreases cs.len(),
{
    if cs.len() == 0 {
        s
    } else {
        process_candle_spec(process_candles_spec(s, cs.drop_last(), cfg), cs.last(), cfg)
    }
}

} // verus!
