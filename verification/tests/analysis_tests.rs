use ict_strategy::analysis::IctAnalysisData;
use ict_strategy::model::{
    Candle, FairValueGap, FvgDirection, IctConfig, MarketStructure, OrderBlock, OrderBlockDirection,
    SwingPoint, TrendDirection, PRICE_SCALE,
};
use ict_strategy::signal::IctSignal;
use ict_strategy::strategy::{
    IctInstrumentData, IctStrategy, InstrumentFilter, InstrumentState, MarketDataEvent, OrderKind,
    Position, Side, StrategyId, TimeInForce,
};
use rust_decimal::Decimal;
use std::collections::VecDeque;

fn fx(x: f64) -> u64 {
    (x * PRICE_SCALE as f64).round() as u64
}

/// A price in signal units (eleven decimals).
fn sx(x: f64) -> u128 {
    fx(x) as u128 * 1000
}

fn candle(t: i64, open: f64, high: f64, low: f64, close: f64, volume: f64) -> Candle {
    Candle {
        close_time: t,
        open: fx(open),
        high: fx(high),
        low: fx(low),
        close: fx(close),
        volume: fx(volume),
        trade_count: 1,
    }
}

fn data_with(gaps: Vec<FairValueGap>, blocks: Vec<OrderBlock>, trend: TrendDirection) -> IctAnalysisData {
    IctAnalysisData {
        candle_history: VecDeque::new(),
        fair_value_gaps: gaps,
        order_blocks: blocks,
        market_structure: MarketStructure {
            trend,
            last_swing_high: None,
            last_swing_low: None,
            break_of_structure: trend != TrendDirection::Sideways,
        },
        last_candle_time: None,
    }
}

fn gap(top: f64, bottom: f64, direction: FvgDirection) -> FairValueGap {
    FairValueGap { top: fx(top), bottom: fx(bottom), time: 1, direction, filled: false }
}

fn block(high: f64, low: f64, direction: OrderBlockDirection) -> OrderBlock {
    OrderBlock { high: fx(high), low: fx(low), time: 1, direction, volume: fx(5000.0), tested: false }
}

#[test]
fn stale_and_repeated_candles_are_ignored() {
    let mut data = IctAnalysisData::default();
    let config = IctConfig::default();
    data.process_candle(&candle(10, 100.0, 101.0, 99.0, 100.0, 1.0), &config);
    data.process_candle(&candle(10, 100.0, 101.0, 99.0, 100.0, 1.0), &config);
    data.process_candle(&candle(9, 100.0, 101.0, 99.0, 100.0, 1.0), &config);
    assert_eq!(data.candle_history.len(), 1);
    assert_eq!(data.last_candle_time, Some(10));
}

#[test]
fn history_keeps_newest_candles() {
    let mut data = IctAnalysisData::default();
    let config = IctConfig { max_candle_history: 3, ..IctConfig::default() };
    for t in 0..5 {
        data.process_candle(&candle(t, 100.0, 101.0, 99.0, 100.0, 1.0), &config);
    }
    assert_eq!(data.candle_history.len(), 3);
    let times: Vec<i64> = data.candle_history.iter().map(|c| c.close_time).collect();
    assert_eq!(times, vec![2, 3, 4]);
    assert_eq!(data.last_candle_time, Some(4));
}

#[test]
fn zero_history_keeps_nothing_but_the_time() {
    let mut data = IctAnalysisData::default();
    let config = IctConfig { max_candle_history: 0, ..IctConfig::default() };
    data.process_candle(&candle(7, 100.0, 101.0, 99.0, 100.0, 1.0), &config);
    assert_eq!(data.candle_history.len(), 0);
    assert_eq!(data.last_candle_time, Some(7));
}

#[test]
fn bearish_gap_is_detected() {
    let mut data = IctAnalysisData::default();
    let config = IctConfig::default();
    data.process_candle(&candle(1, 110.0, 111.0, 109.0, 109.5, 1.0), &config);
    data.process_candle(&candle(2, 109.5, 110.0, 104.0, 104.5, 1.0), &config);
    data.process_candle(&candle(3, 104.5, 105.0, 103.0, 103.5, 1.0), &config);
    assert_eq!(data.fair_value_gaps.len(), 1);
    let g = data.fair_value_gaps[0];
    assert_eq!(g.direction, FvgDirection::Bearish);
    assert_eq!(g.top, fx(109.0));
    assert_eq!(g.bottom, fx(105.0));
    assert_eq!(g.time, 2);
    assert!(!g.filled);
}

#[test]
fn gap_below_minimum_pips_is_not_recorded() {
    let mut data = IctAnalysisData::default();
    // 2 pips = 0.0002 in price; a gap of 0.0001 is too small.
    let config = IctConfig::default();
    data.process_candle(&candle(1, 100.0, 100.0, 99.0, 100.0, 1.0), &config);
    data.process_candle(&candle(2, 100.0, 100.5, 100.0, 100.5, 1.0), &config);
    data.process_candle(&candle(3, 100.5, 101.0, 100.0001, 101.0, 1.0), &config);
    assert!(data.fair_value_gaps.is_empty());
    // Exactly 2 pips is enough.
    let mut data = IctAnalysisData::default();
    data.process_candle(&candle(1, 100.0, 100.0, 99.0, 100.0, 1.0), &config);
    data.process_candle(&candle(2, 100.0, 100.5, 100.0, 100.5, 1.0), &config);
    data.process_candle(&candle(3, 100.5, 101.0, 100.0002, 101.0, 1.0), &config);
    assert_eq!(data.fair_value_gaps.len(), 1);
}

#[test]
fn filled_gap_is_cleaned_up() {
    let mut data = IctAnalysisData::default();
    let config = IctConfig::default();
    data.process_candle(&candle(1, 100.0, 101.0, 99.0, 100.5, 1.0), &config);
    data.process_candle(&candle(2, 100.5, 106.0, 100.0, 105.0, 1.0), &config);
    data.process_candle(&candle(3, 105.0, 107.0, 104.0, 106.0, 1.0), &config);
    assert!(!data.fair_value_gaps[0].filled);
    // Price comes back down to the gap's bottom (101.0): filled, and removed.
    data.process_candle(&candle(4, 106.0, 106.0, 100.9, 101.0, 1.0), &config);
    assert!(data.fair_value_gaps.iter().all(|g| g.time != 2 && !g.filled));
}

#[test]
fn at_most_twenty_gaps_are_kept() {
    let mut data = IctAnalysisData::default();
    let config = IctConfig::default();
    // Steeply rising candles: each new candle opens a bullish gap.
    for t in 0..30i64 {
        let base = 100.0 + 10.0 * t as f64;
        data.process_candle(&candle(t, base, base + 1.0, base - 1.0, base + 0.5, 1.0), &config);
    }
    assert_eq!(data.fair_value_gaps.len(), 20);
    assert_eq!(data.fair_value_gaps[19].time, 28);
    assert_eq!(data.fair_value_gaps[0].time, 9);
}

#[test]
fn order_block_is_identified_and_tested() {
    let mut data = IctAnalysisData::default();
    let config = IctConfig::default();
    data.process_candle(&candle(1, 100.0, 100.5, 99.5, 100.0, 100.0), &config);
    data.process_candle(&candle(2, 100.0, 100.5, 99.5, 100.0, 100.0), &config);
    // Wide, high-volume bullish candle.
    data.process_candle(&candle(3, 100.0, 110.0, 100.0, 109.0, 5000.0), &config);
    data.process_candle(&candle(4, 109.0, 109.5, 108.5, 109.0, 100.0), &config);
    data.process_candle(&candle(5, 109.0, 109.5, 108.5, 109.0, 100.0), &config);
    assert_eq!(data.order_blocks.len(), 1);
    let b = data.order_blocks[0];
    assert_eq!(b.time, 3);
    assert_eq!(b.direction, OrderBlockDirection::Bullish);
    assert_eq!(b.high, fx(110.0));
    assert_eq!(b.low, fx(100.0));
    assert_eq!(b.volume, fx(5000.0));
    assert!(!b.tested);
    // Price within 0.1% above the block's low tests it.
    data.process_candle(&candle(6, 109.0, 109.0, 100.1, 100.5, 100.0), &config);
    assert!(data.order_blocks.iter().any(|b| b.time == 3 && b.tested));
    data.process_candle(&candle(7, 100.5, 120.0, 115.0, 119.0, 100.0), &config);
    assert!(data.order_blocks.iter().any(|b| b.time == 3 && b.tested));
}

#[test]
fn low_volume_candle_is_no_order_block() {
    let mut data = IctAnalysisData::default();
    let config = IctConfig::default();
    data.process_candle(&candle(1, 100.0, 100.5, 99.5, 100.0, 100.0), &config);
    data.process_candle(&candle(2, 100.0, 100.5, 99.5, 100.0, 100.0), &config);
    data.process_candle(&candle(3, 100.0, 110.0, 100.0, 109.0, 999.0), &config);
    data.process_candle(&candle(4, 109.0, 109.5, 108.5, 109.0, 100.0), &config);
    data.process_candle(&candle(5, 109.0, 109.5, 108.5, 109.0, 100.0), &config);
    assert!(data.order_blocks.is_empty());
}

#[test]
fn swing_high_break_turns_trend_bullish() {
    let mut data = IctAnalysisData::default();
    let config = IctConfig::default();
    let highs = [100.0, 101.0, 105.0, 101.0, 100.0, 102.0, 108.0, 102.0, 101.0];
    for (t, h) in highs.iter().enumerate() {
        data.process_candle(&candle(t as i64, h - 0.5, *h, h - 1.0, h - 0.2, 1.0), &config);
    }
    let ms = data.market_structure;
    assert_eq!(ms.last_swing_high, Some(SwingPoint { price: fx(108.0), time: 6 }));
    assert!(ms.break_of_structure);
    assert_eq!(ms.trend, TrendDirection::Bullish);
}

#[test]
fn single_swing_high_does_not_break_structure() {
    let mut data = IctAnalysisData::default();
    let config = IctConfig::default();
    let highs = [100.0, 101.0, 105.0, 101.0, 100.0];
    for (t, h) in highs.iter().enumerate() {
        data.process_candle(&candle(t as i64, h - 0.5, *h, h - 1.0, h - 0.2, 1.0), &config);
    }
    let ms = data.market_structure;
    assert_eq!(ms.last_swing_high, Some(SwingPoint { price: fx(105.0), time: 2 }));
    assert!(!ms.break_of_structure);
    assert_eq!(ms.trend, TrendDirection::Sideways);
}

#[test]
fn long_signal_on_bullish_gap_retest() {
    let data = data_with(vec![gap(110.0, 100.0, FvgDirection::Bullish)], vec![], TrendDirection::Bullish);
    let config = IctConfig::default();
    match data.generate_signal(fx(99.95), &config) {
        Some(IctSignal::Long { entry_price, stop_loss, take_profit, reason }) => {
            assert_eq!(entry_price, sx(99.95));
            assert_eq!(stop_loss, sx(99.5));
            assert_eq!(take_profit, sx(101.949));
            assert_eq!(reason, "Bullish FVG retest in uptrend");
            assert!(stop_loss < entry_price && entry_price < take_profit);
        }
        other => panic!("expected a long signal, got {:?}", other),
    }
    // More than 0.1% below the bottom, or above it: no signal.
    assert!(data.generate_signal(fx(99.8), &config).is_none());
    assert!(data.generate_signal(fx(100.01), &config).is_none());
}

#[test]
fn short_signal_on_bearish_gap_retest() {
    let data = data_with(vec![gap(100.0, 90.0, FvgDirection::Bearish)], vec![], TrendDirection::Bearish);
    let config = IctConfig::default();
    match data.generate_signal(fx(100.05), &config) {
        Some(IctSignal::Short { entry_price, stop_loss, take_profit, reason }) => {
            assert_eq!(entry_price, sx(100.05));
            assert_eq!(stop_loss, sx(100.5));
            assert_eq!(take_profit, sx(98.049));
            assert_eq!(reason, "Bearish FVG retest in downtrend");
            assert!(take_profit < entry_price && entry_price < stop_loss);
        }
        other => panic!("expected a short signal, got {:?}", other),
    }
}

#[test]
fn order_block_signals() {
    let config = IctConfig::default();
    let data = data_with(vec![], vec![block(110.0, 100.0, OrderBlockDirection::Bullish)], TrendDirection::Bullish);
    match data.generate_signal(fx(100.1), &config) {
        Some(IctSignal::Long { entry_price, stop_loss, take_profit, reason }) => {
            assert_eq!(entry_price, sx(100.1));
            assert_eq!(stop_loss, sx(99.0));
            assert_eq!(take_profit, sx(103.103));
            assert_eq!(reason, "Bullish order block retest in uptrend");
        }
        other => panic!("expected a long signal, got {:?}", other),
    }
    let data = data_with(vec![], vec![block(110.0, 100.0, OrderBlockDirection::Bearish)], TrendDirection::Bearish);
    match data.generate_signal(fx(109.9), &config) {
        Some(IctSignal::Short { entry_price, stop_loss, take_profit, reason }) => {
            assert_eq!(entry_price, sx(109.9));
            assert_eq!(stop_loss, sx(111.1));
            assert_eq!(take_profit, sx(106.603));
            assert_eq!(reason, "Bearish order block retest in downtrend");
        }
        other => panic!("expected a short signal, got {:?}", other),
    }
}

#[test]
fn no_signal_against_the_trend_or_sideways() {
    let config = IctConfig::default();
    let gaps = vec![gap(110.0, 100.0, FvgDirection::Bullish), gap(100.0, 90.0, FvgDirection::Bearish)];
    let blocks = vec![block(110.0, 100.0, OrderBlockDirection::Bullish)];
    let data = data_with(gaps.clone(), blocks.clone(), TrendDirection::Sideways);
    assert!(data.generate_signal(fx(100.0), &config).is_none());
    let data = data_with(vec![gap(110.0, 100.0, FvgDirection::Bullish)], blocks, TrendDirection::Bearish);
    assert!(data.generate_signal(fx(100.0), &config).is_none());
}

#[test]
fn gaps_take_precedence_over_blocks_and_filled_gaps_are_skipped() {
    let config = IctConfig::default();
    let mut filled = gap(110.0, 100.0, FvgDirection::Bullish);
    filled.filled = true;
    let data = data_with(
        vec![filled, gap(120.0, 100.0, FvgDirection::Bullish)],
        vec![block(110.0, 100.0, OrderBlockDirection::Bullish)],
        TrendDirection::Bullish,
    );
    match data.generate_signal(fx(100.0), &config) {
        Some(IctSignal::Long { reason, .. }) => assert_eq!(reason, "Bullish FVG retest in uptrend"),
        other => panic!("expected a long signal, got {:?}", other),
    }
    let data = data_with(vec![filled], vec![block(110.0, 100.0, OrderBlockDirection::Bullish)], TrendDirection::Bullish);
    match data.generate_signal(fx(100.0), &config) {
        Some(IctSignal::Long { reason, .. }) => assert_eq!(reason, "Bullish order block retest in uptrend"),
        other => panic!("expected a long signal, got {:?}", other),
    }
}

#[test]
fn default_config_decimals() {
    let config = IctConfig::default();
    assert_eq!(config.risk_per_trade, Decimal::from_str_exact("0.01").unwrap());
    assert_eq!(config.max_position_size, Decimal::from_str_exact("1.0").unwrap());
    assert_eq!(config.risk_per_trade.to_string(), "0.01");
    assert_eq!(config.max_position_size.to_string(), "1.0");
}

#[test]
fn tiny_prices_keep_stops_and_targets_apart() {
    let config = IctConfig::default();
    let one = FairValueGap { top: 5, bottom: 1, time: 1, direction: FvgDirection::Bullish, filled: false };
    let data = data_with(vec![one], vec![], TrendDirection::Bullish);
    match data.generate_signal(1, &config) {
        Some(IctSignal::Long { entry_price, stop_loss, take_profit, .. }) => {
            assert_eq!((stop_loss, entry_price, take_profit), (995, 1000, 1020));
        }
        other => panic!("expected a long signal, got {:?}", other),
    }
    let one = FairValueGap { top: 1, bottom: 0, time: 1, direction: FvgDirection::Bearish, filled: false };
    let data = data_with(vec![one], vec![], TrendDirection::Bearish);
    match data.generate_signal(1, &config) {
        Some(IctSignal::Short { entry_price, stop_loss, take_profit, .. }) => {
            assert_eq!((take_profit, entry_price, stop_loss), (980, 1000, 1005));
        }
        other => panic!("expected a short signal, got {:?}", other),
    }
}

#[test]
fn orders_follow_signals() {
    let strategy = IctStrategy::default();
    let config = IctConfig::default();
    let long_data = IctInstrumentData::new(
        data_with(vec![gap(110.0, 100.0, FvgDirection::Bullish)], vec![], TrendDirection::Bullish),
        config,
    );
    let short_data = IctInstrumentData::new(
        data_with(vec![gap(100.0, 90.0, FvgDirection::Bearish)], vec![], TrendDirection::Bearish),
        config,
    );
    let quiet = IctInstrumentData::default();
    let instruments = vec![
        InstrumentState { exchange: 0, instrument: 0, price: Some(fx(100.0)), position: None, data: &long_data },
        InstrumentState { exchange: 0, instrument: 1, price: None, position: None, data: &long_data },
        InstrumentState { exchange: 1, instrument: 2, price: Some(fx(100.0)), position: None, data: &quiet },
        InstrumentState { exchange: 1, instrument: 3, price: Some(fx(100.05)), position: None, data: &short_data },
    ];
    let orders = strategy.generate_algo_orders(&instruments);
    assert_eq!(orders.len(), 2);
    assert_eq!((orders[0].exchange, orders[0].instrument, orders[0].side), (0, 0, Side::Buy));
    assert_eq!(orders[0].price, Decimal::from_str_exact("100").unwrap());
    assert_eq!(orders[0].quantity, Decimal::from_str_exact("1.0").unwrap());
    assert_eq!(orders[0].strategy.0, "ict_strategy");
    assert_eq!(orders[0].kind, OrderKind::Market);
    assert_eq!(orders[0].time_in_force, TimeInForce::ImmediateOrCancel);
    assert_eq!((orders[1].exchange, orders[1].instrument, orders[1].side), (1, 3, Side::Sell));
    assert_eq!(orders[1].price, Decimal::from_str_exact("100.05").unwrap());
}

#[test]
fn close_positions_closes_open_positions() {
    let strategy = IctStrategy::default();
    let quiet = IctInstrumentData::default();
    let long = Some(Position { side: Side::Buy, quantity: fx(0.5) });
    let short = Some(Position { side: Side::Sell, quantity: fx(2.0) });
    let flat = Some(Position { side: Side::Buy, quantity: 0 });
    let instruments = vec![
        InstrumentState { exchange: 0, instrument: 0, price: Some(fx(100.0)), position: long, data: &quiet },
        InstrumentState { exchange: 0, instrument: 1, price: Some(fx(50.0)), position: None, data: &quiet },
        InstrumentState { exchange: 1, instrument: 2, price: Some(fx(20.0)), position: short, data: &quiet },
        InstrumentState { exchange: 1, instrument: 3, price: None, position: short, data: &quiet },
        InstrumentState { exchange: 1, instrument: 4, price: Some(fx(20.0)), position: flat, data: &quiet },
    ];
    let orders = strategy.close_positions_requests(&instruments, &InstrumentFilter::All);
    assert_eq!(orders.len(), 2);
    assert_eq!((orders[0].instrument, orders[0].side), (0, Side::Sell));
    assert_eq!(orders[0].quantity, Decimal::from_str_exact("0.5").unwrap());
    assert_eq!(orders[0].price, Decimal::from_str_exact("100").unwrap());
    assert_eq!(orders[0].kind, OrderKind::Market);
    assert_eq!((orders[1].instrument, orders[1].side), (2, Side::Buy));
    assert_eq!(orders[1].quantity, Decimal::from_str_exact("2").unwrap());
    let only_exchange_0 = strategy.close_positions_requests(&instruments, &InstrumentFilter::Exchanges(vec![0]));
    assert_eq!(only_exchange_0.len(), 1);
    assert_eq!(only_exchange_0[0].instrument, 0);
    let only_2 = strategy.close_positions_requests(&instruments, &InstrumentFilter::Instruments(vec![2, 3]));
    assert_eq!(only_2.len(), 1);
    assert_eq!(only_2[0].instrument, 2);
}

#[test]
fn instrument_data_analyses_with_its_config() {
    let config = IctConfig { max_candle_history: 4, ..IctConfig::default() };
    let strategy = IctStrategy::new(StrategyId::new("s"), config);
    let mut data = strategy.instrument_data();
    for t in 0..6 {
        data.process(&MarketDataEvent::Candle(candle(t, 100.0, 101.0, 99.0, 100.0, 1.0)));
    }
    assert_eq!(data.ict_data.candle_history.len(), 4);
    assert_eq!(data.config.max_candle_history, 4);
}

#[test]
fn instrument_data_processes_candles_only() {
    let mut data = IctInstrumentData::default();
    data.process(&MarketDataEvent::Trade);
    data.process(&MarketDataEvent::Other);
    assert!(data.ict_data.candle_history.is_empty());
    data.process(&MarketDataEvent::Candle(candle(1, 100.0, 101.0, 99.0, 100.0, 1.0)));
    assert_eq!(data.ict_data.candle_history.len(), 1);
    assert_eq!(data.ict_data.last_candle_time, Some(1));
}

#[test]
fn strategy_id_keeps_its_text() {
    let strategy = IctStrategy::new(StrategyId::new("abc"), IctConfig::default());
    assert_eq!(strategy.id.0, "abc");
    assert_eq!(strategy.config.max_candle_history, 100);
}

#[test]
fn older_gaps_than_the_newest_twenty_are_dropped() {
    // Twenty unfilled gaps are held; a new candle records one more gap and fills
    // the newest stored one. The cap drops the oldest, then the filled one is
    // cleaned up: nineteen remain, the oldest not among them.
    let config = IctConfig::default();
    let mut gaps: Vec<FairValueGap> = (1..20)
        .map(|t| FairValueGap { top: fx(60.0), bottom: fx(50.0), time: t, direction: FvgDirection::Bullish, filled: false })
        .collect();
    gaps.push(FairValueGap { top: fx(210.0), bottom: fx(200.0), time: 20, direction: FvgDirection::Bullish, filled: false });
    let mut data = data_with(gaps, vec![], TrendDirection::Sideways);
    data.process_candle(&candle(100, 100.0, 101.0, 99.0, 100.5, 1.0), &config);
    data.process_candle(&candle(101, 100.5, 160.0, 100.0, 155.0, 1.0), &config);
    data.process_candle(&candle(102, 155.0, 170.0, 150.0, 165.0, 1.0), &config);
    assert_eq!(data.fair_value_gaps.len(), 19);
    assert!(data.fair_value_gaps.iter().all(|g| !g.filled));
    assert!(data.fair_value_gaps.iter().all(|g| g.time != 1 && g.time != 20));
    let last = data.fair_value_gaps[18];
    assert_eq!((last.time, last.top, last.bottom), (101, fx(150.0), fx(101.0)));
}
