//! Entry signals: retests of unfilled fair value gaps and untested order
//! blocks, taken only in the direction of the trend.
use vstd::prelude::*;
use crate::analysis::IctAnalysisData;
use crate::model::{FairValueGap, FvgDirection, IctConfig, OrderBlock, OrderBlockDirection, TrendDirection};
use crate::spec::AnalysisState;

verus! {

/// Number of signal price units in one fixed-point price unit: signal prices
/// carry eleven decimals, so every stop and target (a whole number of tenths
/// of a percent of a price) is exact.
pub const SIGNAL_UNITS_PER_PRICE_UNIT: u128 = 1000;

/// A trading signal. Prices are fixed-point with eleven decimals.
#[derive(Clone, Debug)]
pub enum IctSignal {
    Long { entry_price: u128, stop_loss: u128, take_profit: u128, reason: String },
    Short { entry_price: u128, stop_loss: u128, take_profit: u128, reason: String },
}

/// A signal as a value: its side, prices and the text of its reason.
pub enum SignalView {
    Long { entry_price: u128, stop_loss: u128, take_profit: u128, reason: Seq<char> },
    Short { entry_price: u128, stop_loss: u128, take_profit: u128, reason: Seq<char> },
}

impl View for IctSignal {
    type V = SignalView;

    open spec fn view(&self) -> SignalView {
        match self {
            IctSignal::Long { entry_price, stop_loss, take_profit, reason } => SignalView::Long {
                entry_price: *entry_price,
                stop_loss: *stop_loss,
                take_profit: *take_profit,
                reason: reason@,
            },
            IctSignal::Short { entry_price, stop_loss, take_profit, reason } => SignalView::Short {
                entry_price: *entry_price,
                stop_loss: *stop_loss,
                take_profit: *take_profit,
                reason: reason@,
            },
        }
    }
}

/// The view of an optional signal.
pub open spec fn signal_view(s: Option<IctSignal>) -> Option<SignalView> {
    match s {
        Some(x) => Some(x@),
        None => None,
    }
}

/// Reason given for a long entry on a bullish gap.
pub open spec fn reason_fvg_long() -> Seq<char> {
    "Bullish FVG retest in uptrend"@
}

/// Reason given for a short entry on a bearish gap.
pub open spec fn reason_fvg_short() -> Seq<char> {
    "Bearish FVG retest in downtrend"@
}

/// Reason given for a long entry on a bullish order block.
pub open spec fn reason_block_long() -> Seq<char> {
    "Bullish order block retest in uptrend"@
}

/// Reason given for a short entry on a bearish order block.
pub open spec fn reason_block_short() -> Seq<char> {
    "Bearish order block retest in downtrend"@
}

/// The signal offered by one gap at the current price, if any.
///
/// In an uptrend an unfilled bullish gap is retested when the price is at or
/// below its bottom but within 0.1% of it: long, stop 0.5% below the bottom,
/// target 2% above the price. In a downtrend an unfilled bearish gap is
/// retested when the price is at or above its top but within 0.1% of it:
/// short, stop 0.5% above the top, target 2% below the price. Signal prices
/// are exact, in units of a thousandth of the price unit.
pub open spec fn gap_signal(trend: TrendDirection, g: FairValueGap, price: u64) -> Option<SignalView> {
    if g.filled {
        None
    } else if trend == TrendDirection::Bullish && g.direction == FvgDirection::Bullish {
        if price <= g.bottom && price * 1000 >= g.bottom * 999 {
            Some(
                SignalView::Long {
                    entry_price: (price * 1000) as u128,
                    stop_loss: (g.bottom * 995) as u128,
                    take_profit: (price * 1020) as u128,
                    reason: reason_fvg_long(),
                },
            )
        } else {
            None
        }
    } else if trend == TrendDirection::Bearish && g.direction == FvgDirection::Bearish {
        if price >= g.top && price * 1000 <= g.top * 1001 {
            Some(
                SignalView::Short {
                    entry_price: (price * 1000) as u128,
                    stop_loss: (g.top * 1005) as u128,
                    take_profit: (price * 980) as u128,
                    reason: reason_fvg_short(),
                },
            )
        } else {
            None
        }
    } else {
        None
    }
}

/// The signal offered by one order block at the current price, if any.
///
/// In an uptrend an untested bullish block is retested when the price is
/// within 0.2% of its low: long, stop 1% below the low, target 3% above the
/// price. In a downtrend an untested bearish block is retested when the price
/// is within 0.2% of its high: short, stop 1% above the high, target 3% below
/// the price.
pub open spec fn block_signal(trend: TrendDirection, b: OrderBlock, price: u64) -> Option<SignalView> {
    if b.tested {
        None
    } else if trend == TrendDirection::Bullish && b.direction == OrderBlockDirection::Bullish {
        if price * 1000 <= b.low * 1002 && price * 1000 >= b.low * 998 {
            Some(
                SignalView::Long {
                    entry_price: (price * 1000) as u128,
                    stop_loss: (b.low * 990) as u128,
                    take_profit: (price * 1030) as u128,
                    reason: reason_block_long(),
                },
            )
        } else {
            None
        }
    } else if trend == TrendDirection::Bearish && b.direction == OrderBlockDirection::Bearish {
        if price * 1000 >= b.high * 998 && price * 1000 <= b.high * 1002 {
            Some(
                SignalView::Short {
                    entry_price: (price * 1000) as u128,
                    stop_loss: (b.high * 1010) as u128,
                    take_profit: (price * 970) as u128,
                    reason: reason_block_short(),
                },
            )
        } else {
            None
        }
    } else {
        None
    }
}

/// The signal of the first gap, in order, that offers one.
pub open spec fn first_gap_signal(gaps: Seq<FairValueGap>, trend: TrendDirection, price: u64) -> Option<SignalView>
    decreases gaps.len(),
{
    if gaps.len() == 0 {
        None
    } else {
        match gap_signal(trend, gaps[0], price) {
            Some(s) => Some(s),
            None => first_gap_signal(gaps.drop_first(), trend, price),
        }
    }
}

/// The signal of the first order block, in order, that offers one.
pub open spec fn first_block_signal(blocks: Seq<OrderBlock>, trend: TrendDirection, price: u64) -> Option<SignalView>
    decreases blocks.len(),
{
    if blocks.len() == 0 {
        None
    } else {
        match block_signal(trend, blocks[0], price) {
            Some(s) => Some(s),
            None => first_block_signal(blocks.drop_first(), trend, price),
        }
    }
}

/// The signal of an analysis state at the current price: gaps are examined
/// first, then order blocks.
pub open spec fn signal_spec(s: AnalysisState, price: u64) -> Option<SignalView> {
    match first_gap_signal(s.fair_value_gaps, s.market_structure.trend, price) {
        Some(x) => Some(x),
        None => first_block_signal(s.order_blocks, s.market_structure.trend, price),
    }
}

/// The signal of one gap.
fn gap_signal_of(trend: TrendDirection, g: &FairValueGap, price: u64) -> (r: Option<IctSignal>)
    ensures
        signal_view(r) == gap_signal(trend, *g, price),
{
    if g.filled {
        return None;
    }
    let p = price as u128;
    if trend == TrendDirection::Bullish && g.direction == FvgDirection::Bullish {
        let bottom = g.bottom as u128;
        if p <= bottom && p * 1000 >= bottom * 999 {
            return Some(
                IctSignal::Long {
                    entry_price: p * 1000,
                    stop_loss: bottom * 995,
                    take_profit: p * 1020,
                    reason: "Bullish FVG retest in uptrend".to_string(),
                },
            );
        }
    } else if trend == TrendDirection::Bearish && g.direction == FvgDirection::Bearish {
        let top = g.top as u128;
        if p >= top && p * 1000 <= top * 1001 {
            return Some(
                IctSignal::Short {
                    entry_price: p * 1000,
                    stop_loss: top * 1005,
                    take_profit: p * 980,
                    reason: "Bearish FVG retest in downtrend".to_string(),
                },
            );
        }
    }
    None
}

/// The signal of one order block.
fn block_signal_of(trend: TrendDirection, b: &OrderBlock, price: u64) -> (r: Option<IctSignal>)
    ensures
        signal_view(r) == block_signal(trend, *b, price),
{
    if b.tested {
        return None;
    }
    let p = price as u128;
    if trend == TrendDirection::Bullish && b.direction == OrderBlockDirection::Bullish {
        let low = b.low as u128;
        if p * 1000 <= low * 1002 && p * 1000 >= low * 998 {
            return Some(
                IctSignal::Long {
                    entry_price: p * 1000,
                    stop_loss: low * 990,
                    take_profit: p * 1030,
                    reason: "Bullish order block retest in uptrend".to_string(),
                },
            );
        }
    } else if trend == TrendDirection::Bearish && b.direction == OrderBlockDirection::Bearish {
        let high = b.high as u128;
        if p * 1000 >= high * 998 && p * 1000 <= high * 1002 {
            return Some(
                IctSignal::Short {
                    entry_price: p * 1000,
                    stop_loss: high * 1010,
                    take_profit: p * 970,
                    reason: "Bearish order block retest in downtrend".to_string(),
                },
            );
        }
    }
    None
}

/// Looking from index `i` on, the first signal is that of element `i` or,
/// failing it, the first from `i + 1` on.
proof fn lemma_first_gap_step(gaps: Seq<FairValueGap>, trend: TrendDirection, price: u64, i: int)
    requires
        0 <= i < gaps.len(),
    ensures
        first_gap_signal(gaps.subrange(i, gaps.len() as int), trend, price) == match gap_signal(
            trend,
            gaps[i],
            price,
        ) {
            Some(s) => Some(s),
            None => first_gap_signal(gaps.subrange(i + 1, gaps.len() as int), trend, price),
        },
{
    assert(gaps.subrange(i, gaps.len() as int).drop_first() =~= gaps.subrange(i + 1, gaps.len() as int));
}

/// Looking from index `i` on, the first signal is that of element `i` or,
/// failing it, the first from `i + 1` on.
proof fn lemma_first_block_step(blocks: Seq<OrderBlock>, trend: TrendDirection, price: u64, i: int)
    requires
        0 <= i < blocks.len(),
    ensures
        first_block_signal(blocks.subrange(i, blocks.len() as int), trend, price) == match block_signal(
            trend,
            blocks[i],
            price,
        ) {
            Some(s) => Some(s),
            None => first_block_signal(blocks.subrange(i + 1, blocks.len() as int), trend, price),
        },
{
    assert(blocks.subrange(i, blocks.len() as int).drop_first() =~= blocks.subrange(
        i + 1,
        blocks.len() as int,
    ));
}

impl IctAnalysisData {
    /// Generates a trading signal at the current price (fixed-point): the
    /// first gap retest in the trend direction, else the first order block
    /// retest in the trend direction, else none.
    pub fn generate_signal(&self, current_price: u64, _config: &IctConfig) -> (r: Option<IctSignal>)
        ensures
            signal_view(r) == signal_spec(self@, current_price),
    {
        let trend = self.market_structure.trend;
        let ghost gaps = self.fair_value_gaps@;
        let mut i: usize = 0;
        proof {
            assert(gaps.subrange(0, gaps.len() as int) =~= gaps);
        }
        while i < self.fair_value_gaps.len()
            invariant
                gaps == self.fair_value_gaps@,
                trend == self.market_structure.trend,
                i <= gaps.len(),
                first_gap_signal(gaps, trend, current_price) == first_gap_signal(
                    gaps.subrange(i as int, gaps.len() as int),
                    trend,
                    current_price,
                ),
            decreases gaps.len() - i,
        {
            proof {
                lemma_first_gap_step(gaps, trend, current_price, i as int);
            }
            let s = gap_signal_of(trend, &self.fair_value_gaps[i], current_price);
            if s.is_some() {
                return s;
            }
            i = i + 1;
        }
        proof {
            assert(gaps.subrange(i as int, gaps.len() as int) =~= Seq::<FairValueGap>::empty());
        }
        let ghost blocks = self.order_blocks@;
        let mut j: usize = 0;
        proof {
            assert(blocks.subrange(0, blocks.len() as int) =~= blocks);
        }
        while j < self.order_blocks.len()
            invariant
                blocks == self.order_blocks@,
                trend == self.market_structure.trend,
                j <= blocks.len(),
                first_gap_signal(gaps, trend, current_price) is None,
                gaps == self.fair_value_gaps@,
                first_block_signal(blocks, trend, current_price) == first_block_signal(
                    blocks.subrange(j as int, blocks.len() as int),
                    trend,
                    current_price,
                ),
            decreases blocks.len() - j,
        {
            proof {
                lemma_first_block_step(blocks, trend, current_price, j as int);
            }
            let s = block_signal_of(trend, &self.order_blocks[j], current_price);
            if s.is_some() {
                return s;
            }
            j = j + 1;
        }
        proof {
            assert(blocks.subrange(j as int, blocks.len() as int) =~= Seq::<OrderBlock>::empty());
        }
        None
    }
}

} // verus!
