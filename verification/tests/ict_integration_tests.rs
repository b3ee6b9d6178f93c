use chrono::{TimeZone, Utc};
use ict_strategy::analysis::IctAnalysisData;
use ict_strategy::model::{Candle, FvgDirection, IctConfig, PRICE_SCALE};
use ict_strategy::signal::IctSignal;

/// A price, volume or pip count in the library's fixed-point units.
fn fx(x: f64) -> u64 {
    (x * PRICE_SCALE as f64).round() as u64
}

/// Nanoseconds since the epoch of 2024-01-01 12:00 UTC plus `minutes`.
fn at(minutes: i64) -> i64 {
    let base_time = Utc.with_ymd_and_hms(2024, 1, 1, 12, 0, 0).unwrap();
    (base_time + chrono::Duration::minutes(minutes)).timestamp_nanos_opt().unwrap()
}

#[test]
fn test_ict_analysis_with_sample_data() {
    let mut ict_data = IctAnalysisData::default();
    let config = IctConfig::default();

    // Create a sequence of candles that should form patterns
    let candles = vec![
        // Initial candle
        Candle {
            close_time: at(0),
            open: fx(100.0),
            high: fx(101.0),
            low: fx(99.0),
            close: fx(100.5),
            volume: fx(1000.0),
            trade_count: 10,
        },
        // Gap creating candle
        Candle {
            close_time: at(1),
            open: fx(100.5),
            high: fx(108.0),
            low: fx(100.0),
            close: fx(107.0),
            volume: fx(5000.0), // High volume order block candidate
            trade_count: 50,
        },
        // Candle that creates FVG (gap between first and this one)
        Candle {
            close_time: at(2),
            open: fx(107.0),
            high: fx(109.0),
            low: fx(105.0), // This creates a gap with first candle's high (101.0)
            close: fx(108.0),
            volume: fx(1500.0),
            trade_count: 15,
        },
        // Continuation candle
        Candle {
            close_time: at(3),
            open: fx(108.0),
            high: fx(110.0),
            low: fx(107.5),
            close: fx(109.5),
            volume: fx(1200.0),
            trade_count: 12,
        },
        // Another candle for swing point detection
        Candle {
            close_time: at(4),
            open: fx(109.5),
            high: fx(111.0),
            low: fx(108.0),
            close: fx(110.0),
            volume: fx(1100.0),
            trade_count: 11,
        },
    ];

    // Process all candles
    for candle in &candles {
        ict_data.process_candle(candle, &config);
    }

    // Verify FVG detection
    assert!(!ict_data.fair_value_gaps.is_empty(), "Should detect at least one FVG");

    // Check for bullish FVG (gap between candle 1 and 3)
    let bullish_fvg = ict_data.fair_value_gaps.iter().find(|fvg| fvg.direction == FvgDirection::Bullish);

    assert!(bullish_fvg.is_some(), "Should detect a bullish FVG");

    if let Some(fvg) = bullish_fvg {
        assert_eq!(fvg.top, fx(105.0), "FVG top should be 105.0");
        assert_eq!(fvg.bottom, fx(101.0), "FVG bottom should be 101.0");
        assert!(!fvg.filled, "FVG should not be filled initially");
    }

    println!("Order blocks detected: {}", ict_data.order_blocks.len());
    println!("Fair value gaps detected: {}", ict_data.fair_value_gaps.len());

    let high_volume_candle = candles.iter().find(|c| c.volume >= fx(5000.0));
    assert!(high_volume_candle.is_some(), "Test data should contain high volume candle");

    // Verify candle history is maintained
    assert_eq!(ict_data.candle_history.len(), 5, "Should maintain all 5 candles");

    // Verify market structure is being tracked
    assert!(
        ict_data.market_structure.last_swing_high.is_none()
            || ict_data.market_structure.last_swing_low.is_none(),
        "Market structure should be analyzed (may not have swings with only 5 candles)"
    );
}

#[test]
fn test_ict_signal_generation_integration() {
    let mut ict_data = IctAnalysisData::default();
    let config = IctConfig {
        max_candle_history: 50,
        fvg_min_gap_pips: fx(1.0), // Lower threshold for testing
        order_block_min_volume: fx(1000.0),
        risk_per_trade: rust_decimal::Decimal::from_str_exact("0.01").unwrap(),
        max_position_size: rust_decimal::Decimal::from_str_exact("1.0").unwrap(),
    };

    let trend_candles = vec![
        Candle {
            close_time: at(0),
            open: fx(100.0), high: fx(101.0), low: fx(99.0), close: fx(100.5),
            volume: fx(1000.0), trade_count: 10,
        },
        Candle {
            close_time: at(1),
            open: fx(100.5), high: fx(102.0), low: fx(100.0), close: fx(101.5),
            volume: fx(1200.0), trade_count: 12,
        },
        Candle {
            close_time: at(2),
            open: fx(101.5), high: fx(103.0), low: fx(101.0), close: fx(102.5),
            volume: fx(1100.0), trade_count: 11,
        },
        // Create FVG pattern
        Candle {
            close_time: at(3),
            open: fx(102.5), high: fx(103.0), low: fx(102.0), close: fx(102.8),
            volume: fx(1000.0), trade_count: 10,
        },
        Candle {
            close_time: at(4),
            open: fx(102.8), high: fx(106.0), low: fx(102.5), close: fx(105.5),
            volume: fx(2000.0), trade_count: 20,
        },
        Candle {
            close_time: at(5),
            open: fx(105.5), high: fx(107.0), low: fx(104.5), close: fx(106.0),
            volume: fx(1500.0), trade_count: 15,
        },
    ];

    // Process candles to build patterns
    for candle in &trend_candles {
        ict_data.process_candle(candle, &config);
    }

    // Test signal generation at different price levels
    let current_price = fx(103.0); // Price near potential FVG retest level
    let signal = ict_data.generate_signal(current_price, &config);

    match signal {
        Some(signal) => {
            println!("Generated ICT signal: {:?}", signal);
            match signal {
                IctSignal::Long { entry_price, stop_loss, take_profit, reason } => {
                    assert!(entry_price > 0, "Entry price should be positive");
                    assert!(stop_loss > 0, "Stop loss should be positive");
                    assert!(take_profit > entry_price, "Take profit should be above entry for long");
                    assert!(!reason.is_empty(), "Should have a reason");
                }
                IctSignal::Short { entry_price, stop_loss, take_profit, reason } => {
                    assert!(entry_price > 0, "Entry price should be positive");
                    assert!(stop_loss > 0, "Stop loss should be positive");
                    assert!(take_profit < entry_price, "Take profit should be below entry for short");
                    assert!(!reason.is_empty(), "Should have a reason");
                }
            }
        }
        None => {
            println!("No ICT signal generated at current price level");
        }
    }

    // Verify that patterns were detected
    assert!(
        !ict_data.fair_value_gaps.is_empty() || !ict_data.order_blocks.is_empty(),
        "Should detect at least some patterns with this data"
    );
}
