//! The values the analysis reads and records.
//!
//! Prices, volumes, pip sizes and order quantities are fixed-point numbers with
//! eight decimal places (`PRICE_SCALE` units per whole unit), so that every
//! comparison and percentage of the strategy is exact integer arithmetic.
//! Times are signed integer timestamps in one fixed unit (the application uses
//! nanoseconds since the Unix epoch); only their order matters.
use rust_decimal::Decimal;
use vstd::prelude::*;
use crate::decimal::{decimal_from_fixed, decimal_from_i128_with_scale};

verus! {

/// Number of fixed-point units in one whole price, volume or quantity unit.
pub const PRICE_SCALE: u64 = 100_000_000;

/// Number of price units in one pip, in the same fixed-point scale on both sides:
/// a gap of `g` covers `p` pips exactly when `g * PIPS_PER_PRICE >= p`.
pub const PIPS_PER_PRICE: u64 = 10_000;

/// An OHLCV candle.
#[derive(Clone, Copy, Debug, PartialEq, Eq, Structural)]
pub struct Candle {
    pub close_time: i64,
    pub open: u64,
    pub high: u64,
    pub low: u64,
    pub close: u64,
    pub volume: u64,
    pub trade_count: u64,
}

/// Direction of a fair value gap.
#[derive(Clone, Copy, Debug, PartialEq, Eq, Structural)]
pub enum FvgDirection {
    /// Gap created by upward movement.
    Bullish,
    /// Gap created by downward movement.
    Bearish,
}

/// A fair value gap: a price range left untraded between the first and the
/// third of three consecutive candles.
#[derive(Clone, Copy, Debug, PartialEq, Eq, Structural)]
pub struct FairValueGap {
    pub top: u64,
    pub bottom: u64,
    pub time: i64,
    pub direction: FvgDirection,
    pub filled: bool,
}

/// Direction of an order block.
#[derive(Clone, Copy, Debug, PartialEq, Eq, Structural)]
pub enum OrderBlockDirection {
    /// Support level.
    Bullish,
    /// Resistance level.
    Bearish,
}

/// An order block: a high-volume candle whose range is well above the
/// average range around it.
#[derive(Clone, Copy, Debug, PartialEq, Eq, Structural)]
pub struct OrderBlock {
    pub high: u64,
    pub low: u64,
    pub time: i64,
    pub direction: OrderBlockDirection,
    pub volume: u64,
    pub tested: bool,
}

/// Trend read from the market structure.
#[derive(Clone, Copy, Debug, PartialEq, Eq, Structural)]
pub enum TrendDirection {
    Bullish,
    Bearish,
    Sideways,
}

impl Default for TrendDirection {
    fn default() -> (t: Self)
        ensures
            t == TrendDirection::Sideways,
    {
        TrendDirection::Sideways
    }
}

/// A swing high or swing low.
#[derive(Clone, Copy, Debug, PartialEq, Eq, Structural)]
pub struct SwingPoint {
    pub price: u64,
    pub time: i64,
}

/// Market structure: the trend, the last swing points, and whether a break
/// of structure has been seen.
#[derive(Clone, Copy, Debug, PartialEq, Eq, Structural)]
pub struct MarketStructure {
    pub trend: TrendDirection,
    pub last_swing_high: Option<SwingPoint>,
    pub last_swing_low: Option<SwingPoint>,
    pub break_of_structure: bool,
}

/// The market structure before any swing point has been seen.
pub open spec fn initial_structure() -> MarketStructure {
    MarketStructure {
        trend: TrendDirection::Sideways,
        last_swing_high: None,
        last_swing_low: None,
        break_of_structure: false,
    }
}

impl Default for MarketStructure {
    fn default() -> (m: Self)
        ensures
            m == initial_structure(),
    {
        MarketStructure {
            trend: TrendDirection::Sideways,
            last_swing_high: None,
            last_swing_low: None,
            break_of_structure: false,
        }
    }
}

/// Configuration of the strategy.
#[derive(Clone, Copy, Debug)]
pub struct IctConfig {
    /// Maximum number of candles kept in history.
    pub max_candle_history: usize,
    /// Minimum gap size in pips (fixed-point) for a fair value gap.
    pub fvg_min_gap_pips: u64,
    /// Minimum volume (fixed-point) for an order block.
    pub order_block_min_volume: u64,
    /// Risk fraction per trade.
    pub risk_per_trade: Decimal,
    /// Maximum position size, the quantity of every order.
    pub max_position_size: Decimal,
}

/// The default configuration: 100 candles, 2 pips, volume 1000, risk 0.01,
/// position size 1.0.
pub open spec fn default_config() -> IctConfig {
    IctConfig {
        max_candle_history: 100,
        fvg_min_gap_pips: 200_000_000,
        order_block_min_volume: 100_000_000_000,
        risk_per_trade: decimal_from_i128_with_scale(1, 2),
        max_position_size: decimal_from_i128_with_scale(10, 1),
    }
}

impl Default for IctConfig {
    fn default() -> (c: Self)
        ensures
            c == default_config(),
    {
        IctConfig {
            max_candle_history: 100,
            fvg_min_gap_pips: 2 * PRICE_SCALE,
            order_block_min_volume: 1000 * PRICE_SCALE,
            risk_per_trade: decimal_from_fixed(1, 2),
            max_position_size: decimal_from_fixed(10, 1),
        }
    }
}

} // verus!
