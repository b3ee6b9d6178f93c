//! The candle analysis: history, fair value gaps, order blocks and market
//! structure, updated one candle at a time.
use std::collections::VecDeque;
use vstd::prelude::*;
use crate::model::{
    Candle, FairValueGap, FvgDirection, IctConfig, MarketStructure, OrderBlock, OrderBlockDirection,
    SwingPoint, TrendDirection, PIPS_PER_PRICE,
};
use crate::spec::{
    bearish_gap, block_candidate, bullish_gap, detect_gaps, drop_filled, empty_state, has_block, has_gap,
    identify_blocks, keep_last, process_candle_spec, range_sum, record_block, record_gap,
    refresh_blocks, refresh_gaps, scan_blocks, scan_structure, update_structure, window_end,
    window_start, AnalysisState,
};

verus! {

/// Analysis data kept for one instrument.
#[derive(Clone, Debug)]
pub struct IctAnalysisData {
    /// Historical candles for pattern analysis, oldest first.
    pub candle_history: VecDeque<Candle>,
    /// Identified fair value gaps, oldest first.
    pub fair_value_gaps: Vec<FairValueGap>,
    /// Identified order blocks, oldest first.
    pub order_blocks: Vec<OrderBlock>,
    /// Current market structure.
    pub market_structure: MarketStructure,
    /// Close time of the last accepted candle.
    pub last_candle_time: Option<i64>,
}

impl View for IctAnalysisData {
    type V = AnalysisState;

    open spec fn view(&self) -> AnalysisState {
        AnalysisState {
            candle_history: self.candle_history@,
            fair_value_gaps: self.fair_value_gaps@,
            order_blocks: self.order_blocks@,
            market_structure: self.market_structure,
            last_candle_time: self.last_candle_time,
        }
    }
}

impl Default for IctAnalysisData {
    fn default() -> (d: Self)
        ensures
            d@ == empty_state(),
    {
        IctAnalysisData {
            candle_history: VecDeque::new(),
            fair_value_gaps: Vec::new(),
            order_blocks: Vec::new(),
            market_structure: MarketStructure::default(),
            last_candle_time: None,
        }
    }
}

/// Keeps the newest `n` elements of `v`.
fn keep_last_vec<T>(v: &mut Vec<T>, n: usize)
    ensures
        final(v)@ == keep_last(old(v)@, n as nat),
{
    if v.len() > n {
        let at = v.len() - n;
        let tail = v.split_off(at);
        *v = tail;
    }
}

/// Whether a gap with this time and direction is recorded.
fn contains_gap(gaps: &Vec<FairValueGap>, time: i64, direction: FvgDirection) -> (found: bool)
    ensures
        found == has_gap(gaps@, time, direction),
{
    let mut i: usize = 0;
    while i < gaps.len()
        invariant
            i <= gaps.len(),
            forall|j: int| 0 <= j < i ==> !(#[trigger] gaps@[j].time == time && gaps@[j].direction == direction),
        decreases gaps.len() - i,
    {
        if gaps[i].time == time && gaps[i].direction == direction {
            return true;
        }
        i = i + 1;
    }
    false
}

/// Records a candidate gap unless one with its time and direction exists.
fn push_gap(gaps: &mut Vec<FairValueGap>, candidate: Option<FairValueGap>)
    ensures
        final(gaps)@ == record_gap(old(gaps)@, candidate),
{
    if let Some(g) = candidate {
        if !contains_gap(gaps, g.time, g.direction) {
            gaps.push(g);
        }
    }
}

/// Whether an order block with this time is recorded.
fn contains_block(blocks: &Vec<OrderBlock>, time: i64) -> (found: bool)
    ensures
        found == has_block(blocks@, time),
{
    let mut i: usize = 0;
    while i < blocks.len()
        invariant
            i <= blocks.len(),
            forall|j: int| 0 <= j < i ==> #[trigger] blocks@[j].time != time,
        decreases blocks.len() - i,
    {
        if blocks[i].time == time {
            return true;
        }
        i = i + 1;
    }
    false
}

/// Records a candidate block unless one with its time exists.
fn push_block(blocks: &mut Vec<OrderBlock>, candidate: Option<OrderBlock>)
    ensures
        final(blocks)@ == record_block(old(blocks)@, candidate),
{
    if let Some(b) = candidate {
        if !contains_block(blocks, b.time) {
            blocks.push(b);
        }
    }
}

/// The bullish gap of three consecutive candles, if any.
fn bullish_gap_of(c1: &Candle, c2: &Candle, c3: &Candle, cfg: &IctConfig) -> (g: Option<FairValueGap>)
    ensures
        g == bullish_gap(*c1, *c2, *c3, *cfg),
{
    if c1.high < c3.low {
        let gap = (c3.low - c1.high) as u128;
        proof {
            assert(gap * 10_000 <= 0x1_0000_0000_0000_0000 * 10_000) by (nonlinear_arith)
                requires
                    gap <= 0x1_0000_0000_0000_0000,
            ;
        }
        if gap * (PIPS_PER_PRICE as u128) >= cfg.fvg_min_gap_pips as u128 {
            return Some(
                FairValueGap {
                    top: c3.low,
                    bottom: c1.high,
                    time: c2.close_time,
                    direction: FvgDirection::Bullish,
                    filled: false,
                },
            );
        }
    }
    None
}

/// The bearish gap of three consecutive candles, if any.
fn bearish_gap_of(c1: &Candle, c2: &Candle, c3: &Candle, cfg: &IctConfig) -> (g: Option<FairValueGap>)
    ensures
        g == bearish_gap(*c1, *c2, *c3, *cfg),
{
    if c1.low > c3.high {
        let gap = (c1.low - c3.high) as u128;
        proof {
            assert(gap * 10_000 <= 0x1_0000_0000_0000_0000 * 10_000) by (nonlinear_arith)
                requires
                    gap <= 0x1_0000_0000_0000_0000,
            ;
        }
        if gap * (PIPS_PER_PRICE as u128) >= cfg.fvg_min_gap_pips as u128 {
            return Some(
                FairValueGap {
                    top: c1.low,
                    bottom: c3.high,
                    time: c2.close_time,
                    direction: FvgDirection::Bearish,
                    filled: false,
                },
            );
        }
    }
    None
}

/// Every gap refreshed by the current candle.
fn refresh_all_gaps(gaps: &mut Vec<FairValueGap>, current: &Candle)
    ensures
        final(gaps)@ == refresh_gaps(old(gaps)@, *current),
{
    let mut out: Vec<FairValueGap> = Vec::new();
    let mut i: usize = 0;
    while i < gaps.len()
        invariant
            i <= gaps.len(),
            out@ == refresh_gaps(gaps@.subrange(0, i as int), *current),
        decreases gaps.len() - i,
    {
        let g = gaps[i];
        let filled = if g.filled {
            true
        } else {
            match g.direction {
                FvgDirection::Bullish => current.low <= g.bottom,
                FvgDirection::Bearish => current.high >= g.top,
            }
        };
        out.push(
            FairValueGap { top: g.top, bottom: g.bottom, time: g.time, direction: g.direction, filled },
        );
        proof {
            assert(gaps@.subrange(0, i + 1) =~= gaps@.subrange(0, i as int).push(g));
        }
        i = i + 1;
    }
    proof {
        assert(gaps@.subrange(0, gaps@.len() as int) =~= gaps@);
    }
    *gaps = out;
}

/// Removes the filled gaps, keeping the order of the others.
fn remove_filled_gaps(gaps: &mut Vec<FairValueGap>)
    ensures
        final(gaps)@ == drop_filled(old(gaps)@),
{
    let mut out: Vec<FairValueGap> = Vec::new();
    let mut i: usize = 0;
    while i < gaps.len()
        invariant
            i <= gaps.len(),
            out@ == drop_filled(gaps@.subrange(0, i as int)),
        decreases gaps.len() - i,
    {
        let g = gaps[i];
        proof {
            assert(gaps@.subrange(0, i + 1).drop_last() =~= gaps@.subrange(0, i as int));
        }
        if !g.filled {
            out.push(g);
        }
        i = i + 1;
    }
    proof {
        assert(gaps@.subrange(0, gaps@.len() as int) =~= gaps@);
    }
    *gaps = out;
}

/// Every order block refreshed by the current candle.
fn refresh_all_blocks(blocks: &mut Vec<OrderBlock>, current: &Candle)
    ensures
        final(blocks)@ == refresh_blocks(old(blocks)@, *current),
{
    let mut out: Vec<OrderBlock> = Vec::new();
    let mut i: usize = 0;
    while i < blocks.len()
        invariant
            i <= blocks.len(),
            out@ == refresh_blocks(blocks@.subrange(0, i as int), *current),
        decreases blocks.len() - i,
    {
        let b = blocks[i];
        let tested = if b.tested {
            true
        } else {
            match b.direction {
                OrderBlockDirection::Bullish => (current.low as u128) * 1000 <= (b.low as u128) * 1001,
                OrderBlockDirection::Bearish => (current.high as u128) * 1000 >= (b.high as u128)
                    * 999,
            }
        };
        out.push(
            OrderBlock {
                high: b.high,
                low: b.low,
                time: b.time,
                direction: b.direction,
                volume: b.volume,
                tested,
            },
        );
        proof {
            assert(blocks@.subrange(0, i + 1) =~= blocks@.subrange(0, i as int).push(b));
        }
        i = i + 1;
    }
    proof {
        assert(blocks@.subrange(0, blocks@.len() as int) =~= blocks@);
    }
    *blocks = out;
}

impl IctAnalysisData {
    /// Adds a candle and performs the analysis.
    ///
    /// A candle that closes no later than the last accepted one is ignored.
    pub fn process_candle(&mut self, candle: &Candle, config: &IctConfig)
        ensures
            final(self)@ == process_candle_spec(old(self)@, *candle, *config),
    {
        let stale = match self.last_candle_time {
            Some(last) => last >= candle.close_time,
            None => false,
        };
        if stale {
            return;
        }
        let ghost full = self.candle_history@.push(*candle);
        self.candle_history.push_back(*candle);
        let ghost start_len = full.len();
        while self.candle_history.len() > config.max_candle_history
            invariant
                self.fair_value_gaps@ == old(self).fair_value_gaps@,
                self.order_blocks@ == old(self).order_blocks@,
                self.market_structure == old(self).market_structure,
                self.last_candle_time == old(self).last_candle_time,
                full.len() == start_len,
                self.candle_history@ == full.subrange(
                    start_len - self.candle_history@.len(),
                    start_len as int,
                ),
                self.candle_history@.len() <= start_len,
                self.candle_history@.len() >= config.max_candle_history || self.candle_history@.len()
                    == start_len,
            decreases self.candle_history@.len(),
        {
            self.candle_history.pop_front();
        }
        proof {
            assert(self.candle_history@ =~= keep_last(full, config.max_candle_history as nat));
        }
        self.last_candle_time = Some(candle.close_time);
        if self.candle_history.len() >= 3 {
            self.detect_fair_value_gaps(config);
            self.identify_order_blocks(config);
            self.update_market_structure();
        }
    }

    /// Detects a fair value gap in the last three candles, refreshes the
    /// filled status of all gaps, keeps the newest twenty, and removes the
    /// filled ones among them. Nothing happens on fewer than three candles.
    fn detect_fair_value_gaps(&mut self, config: &IctConfig)
        ensures
            final(self)@ == (AnalysisState {
                fair_value_gaps: detect_gaps(old(self).fair_value_gaps@, old(self).candle_history@, *config),
                ..old(self)@
            }),
    {
        let len = self.candle_history.len();
        if len < 3 {
            return;
        }
        let c1 = self.candle_history[len - 3];
        let c2 = self.candle_history[len - 2];
        let c3 = self.candle_history[len - 1];
        push_gap(&mut self.fair_value_gaps, bullish_gap_of(&c1, &c2, &c3, config));
        push_gap(&mut self.fair_value_gaps, bearish_gap_of(&c1, &c2, &c3, config));
        refresh_all_gaps(&mut self.fair_value_gaps, &c3);
        keep_last_vec(&mut self.fair_value_gaps, 20);
        remove_filled_gaps(&mut self.fair_value_gaps);
    }

    /// Sums of the highs and of the lows of the candles in the window of
    /// `lookback` candles around `center`, and the number of candles in it:
    /// the average range is the difference of the sums over the count.
    fn calculate_average_range(&self, center: usize, lookback: usize) -> (r: (u128, u128, usize))
        requires
            window_start(center as int, lookback as int) <= window_end(
                center as int,
                lookback as int,
                self.candle_history@.len() as int,
            ),
        ensures
            r.0 - r.1 == range_sum(
                self.candle_history@,
                window_start(center as int, lookback as int),
                window_end(center as int, lookback as int, self.candle_history@.len() as int),
            ),
            r.0 <= r.2 * 0xFFFF_FFFF_FFFF_FFFF,
            r.1 <= r.2 * 0xFFFF_FFFF_FFFF_FFFF,
            r.2 == window_end(center as int, lookback as int, self.candle_history@.len() as int)
                - window_start(center as int, lookback as int),
    {
        let half = lookback / 2;
        let start = if center >= half { center - half } else { 0 };
        let end = if center <= self.candle_history.len() && half <= self.candle_history.len() - center {
            center + half
        } else {
            self.candle_history.len()
        };
        let mut highs: u128 = 0;
        let mut lows: u128 = 0;
        let mut j = start;
        while j < end
            invariant
                start <= j <= end,
                end <= self.candle_history@.len(),
                start == window_start(center as int, lookback as int),
                end == window_end(center as int, lookback as int, self.candle_history@.len() as int),
                highs - lows == range_sum(self.candle_history@, start as int, j as int),
                highs <= (j - start) * 0xFFFF_FFFF_FFFF_FFFF,
                lows <= (j - start) * 0xFFFF_FFFF_FFFF_FFFF,
            decreases end - j,
        {
            let c = self.candle_history[j];
            proof {
                assert((j + 1 - start) * 0xFFFF_FFFF_FFFF_FFFF == (j - start) * 0xFFFF_FFFF_FFFF_FFFF
                    + 0xFFFF_FFFF_FFFF_FFFF) by (nonlinear_arith);
                assert((j + 1 - start) * 0xFFFF_FFFF_FFFF_FFFF <= 0xFFFF_FFFF_FFFF_FFFF
                    * 0xFFFF_FFFF_FFFF_FFFF) by (nonlinear_arith)
                    requires
                        j + 1 - start <= 0xFFFF_FFFF_FFFF_FFFF,
                ;
            }
            highs = highs + c.high as u128;
            lows = lows + c.low as u128;
            j = j + 1;
        }
        (highs, lows, end - start)
    }

    /// The order block candidate at index `i` of the history, if any.
    fn block_candidate_at(&self, i: usize, config: &IctConfig) -> (b: Option<OrderBlock>)
        requires
            2 <= i,
            i + 2 < self.candle_history@.len(),
        ensures
            b == block_candidate(self.candle_history@, i as int, *config),
    {
        let candle = self.candle_history[i];
        if candle.volume >= config.order_block_min_volume {
            let (highs, lows, count) = self.calculate_average_range(i, 10);
            proof {
                assert(count <= 10);
                assert(highs <= 10 * 0xFFFF_FFFF_FFFF_FFFF && lows <= 10 * 0xFFFF_FFFF_FFFF_FFFF)
                    by (nonlinear_arith)
                    requires
                        count <= 10,
                        highs <= count * 0xFFFF_FFFF_FFFF_FFFF,
                        lows <= count * 0xFFFF_FFFF_FFFF_FFFF,
                ;
                assert(2 * candle.high * count <= 20 * 0xFFFF_FFFF_FFFF_FFFF && 2 * candle.low * count
                    <= 20 * 0xFFFF_FFFF_FFFF_FFFF) by (nonlinear_arith)
                    requires
                        count <= 10,
                        candle.high <= 0xFFFF_FFFF_FFFF_FFFF,
                        candle.low <= 0xFFFF_FFFF_FFFF_FFFF,
                ;
                assert(2 * (candle.high - candle.low) * count == 2 * candle.high * count - 2
                    * candle.low * count) by (nonlinear_arith);
            }
            let n = count as u128;
            // 2 * range * count > 3 * (highs - lows), with both sides moved to be non-negative.
            if 2 * (candle.high as u128) * n + 3 * lows > 3 * highs + 2 * (candle.low as u128) * n {
                let direction = if candle.close > candle.open {
                    OrderBlockDirection::Bullish
                } else {
                    OrderBlockDirection::Bearish
                };
                return Some(
                    OrderBlock {
                        high: candle.high,
                        low: candle.low,
                        time: candle.close_time,
                        direction,
                        volume: candle.volume,
                        tested: false,
                    },
                );
            }
        }
        None
    }

    /// Records order blocks among the candles away from both ends of the
    /// history, refreshes the tested status of all blocks, and keeps the
    /// newest fifteen.
    fn identify_order_blocks(&mut self, config: &IctConfig)
        ensures
            final(self)@ == (AnalysisState {
                order_blocks: identify_blocks(old(self).order_blocks@, old(self).candle_history@, *config),
                ..old(self)@
            }),
    {
        let len = self.candle_history.len();
        if len < 5 {
            return;
        }
        let ghost h = self.candle_history@;
        let ghost blocks0 = self.order_blocks@;
        let mut i: usize = 2;
        while i < len - 2
            invariant
                self.candle_history@ == h,
                h.len() == len,
                len >= 5,
                2 <= i <= len - 2,
                self.fair_value_gaps@ == old(self).fair_value_gaps@,
                self.market_structure == old(self).market_structure,
                self.last_candle_time == old(self).last_candle_time,
                h == old(self).candle_history@,
                blocks0 == old(self).order_blocks@,
                self.order_blocks@ == scan_blocks(blocks0, h, *config, i as int),
            decreases len - i,
        {
            let candidate = self.block_candidate_at(i, config);
            push_block(&mut self.order_blocks, candidate);
            i = i + 1;
        }
        let current = self.candle_history[len - 1];
        refresh_all_blocks(&mut self.order_blocks, &current);
        keep_last_vec(&mut self.order_blocks, 15);
    }

    /// Examines the candles away from both ends of the history for swing
    /// highs and lows, updating the trend on each break of structure.
    fn update_market_structure(&mut self)
        ensures
            final(self)@ == (AnalysisState {
                market_structure: update_structure(old(self).market_structure, old(self).candle_history@),
                ..old(self)@
            }),
    {
        let len = self.candle_history.len();
        if len < 5 {
            return;
        }
        let ghost h = self.candle_history@;
        let mut i: usize = 2;
        while i < len - 2
            invariant
                self.candle_history@ == h,
                h.len() == len,
                len >= 5,
                2 <= i <= len - 2,
                self.fair_value_gaps@ == old(self).fair_value_gaps@,
                self.order_blocks@ == old(self).order_blocks@,
                self.last_candle_time == old(self).last_candle_time,
                h == old(self).candle_history@,
                self.market_structure == scan_structure(old(self).market_structure, h, i as int),
            decreases len - i,
        {
            let candle = self.candle_history[i];
            let prev2 = self.candle_history[i - 2];
            let prev1 = self.candle_history[i - 1];
            let next1 = self.candle_history[i + 1];
            let next2 = self.candle_history[i + 2];
            if candle.high > prev2.high && candle.high > prev1.high && candle.high > next1.high
                && candle.high > next2.high {
                let swing_high = SwingPoint { price: candle.high, time: candle.close_time };
                if let Some(last_high) = self.market_structure.last_swing_high {
                    if swing_high.price > last_high.price {
                        self.market_structure.break_of_structure = true;
                        self.market_structure.trend = TrendDirection::Bullish;
                    }
                }
                self.market_structure.last_swing_high = Some(swing_high);
            }
            if candle.low < prev2.low && candle.low < prev1.low && candle.low < next1.low
                && candle.low < next2.low {
                let swing_low = SwingPoint { price: candle.low, time: candle.close_time };
                if let Some(last_low) = self.market_structure.last_swing_low {
                    if swing_low.price < last_low.price {
                        self.market_structure.break_of_structure = true;
                        self.market_structure.trend = TrendDirection::Bearish;
                    }
                }
                self.market_structure.last_swing_low = Some(swing_low);
            }
            i = i + 1;
        }
    }
}

} // verus!
