use chrono::Utc;
use ict_strategy::analysis::IctAnalysisData;
use ict_strategy::model::{Candle, FvgDirection, IctConfig, PRICE_SCALE};
use ict_strategy::strategy::{IctStrategy, StrategyId};
use rust_decimal::Decimal;

/// A price, volume or pip count in the library's fixed-point units.
fn fx(x: f64) -> u64 {
    (x * PRICE_SCALE as f64).round() as u64
}

fn now_nanos() -> i64 {
    Utc::now().timestamp_nanos_opt().unwrap()
}

#[test]
fn test_ict_config_default() {
    let config = IctConfig::default();
    assert_eq!(config.max_candle_history, 100);
    assert_eq!(config.fvg_min_gap_pips, fx(2.0));
    assert_eq!(config.order_block_min_volume, fx(1000.0));
}

#[test]
fn test_fair_value_gap_detection() {
    let mut ict_data = IctAnalysisData::default();
    let config = IctConfig::default();

    // Create test candles that form a bullish FVG
    let candle1 = Candle {
        close_time: now_nanos(),
        open: fx(100.0),
        high: fx(101.0),
        low: fx(99.0),
        close: fx(100.5),
        volume: fx(1000.0),
        trade_count: 10,
    };

    let candle2 = Candle {
        close_time: now_nanos(),
        open: fx(100.5),
        high: fx(106.0),
        low: fx(100.0),
        close: fx(105.0),
        volume: fx(2000.0),
        trade_count: 20,
    };

    let candle3 = Candle {
        close_time: now_nanos(),
        open: fx(105.0),
        high: fx(107.0),
        low: fx(104.0), // This creates a gap with candle1.high (101.0)
        close: fx(106.0),
        volume: fx(1500.0),
        trade_count: 15,
    };

    ict_data.process_candle(&candle1, &config);
    ict_data.process_candle(&candle2, &config);
    ict_data.process_candle(&candle3, &config);

    // Should detect a bullish FVG
    assert_eq!(ict_data.fair_value_gaps.len(), 1);
    assert_eq!(ict_data.fair_value_gaps[0].direction, FvgDirection::Bullish);
    assert_eq!(ict_data.fair_value_gaps[0].top, fx(104.0));
    assert_eq!(ict_data.fair_value_gaps[0].bottom, fx(101.0));
}

#[test]
fn test_ict_strategy_creation() {
    let strategy = IctStrategy::default();
    assert_eq!(strategy.id.0.as_str(), "ict_strategy");

    let custom_config = IctConfig {
        max_candle_history: 50,
        fvg_min_gap_pips: fx(1.0),
        order_block_min_volume: fx(500.0),
        risk_per_trade: Decimal::from_str_exact("0.02").unwrap(),
        max_position_size: Decimal::from_str_exact("0.5").unwrap(),
    };

    let custom_strategy = IctStrategy::new(StrategyId::new("custom_ict"), custom_config.clone());

    assert_eq!(custom_strategy.id.0.as_str(), "custom_ict");
    assert_eq!(custom_strategy.config.max_candle_history, 50);
}
