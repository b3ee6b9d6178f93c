//! The strategy: per-instrument data, and the orders drawn from the signals.
use rust_decimal::Decimal;
use vstd::prelude::*;
use crate::analysis::IctAnalysisData;
use crate::laws::law_signal_well_formed;
use crate::decimal::{decimal_from_fixed, decimal_from_i128_with_scale};
use crate::model::{default_config, Candle, IctConfig};
use crate::signal::{signal_spec, IctSignal, SignalView};
use crate::spec::{empty_state, process_candle_spec};

verus! {

/// Identifier of a strategy.
#[derive(Clone, Debug)]
pub struct StrategyId(pub String);

impl StrategyId {
    /// A strategy identifier with the given text.
    pub fn new(id: &str) -> (s: Self)
        ensures
            s.0@ == id@,
    {
        StrategyId(id.to_string())
    }
}

/// The strategy: an identifier and a configuration.
#[derive(Clone, Debug)]
pub struct IctStrategy {
    pub id: StrategyId,
    pub config: IctConfig,
}

impl Default for IctStrategy {
    fn default() -> (s: Self)
        ensures
            s.id.0@ == "ict_strategy"@,
            s.config == default_config(),
    {
        IctStrategy { id: StrategyId::new("ict_strategy"), config: IctConfig::default() }
    }
}

/// Market data delivered to an instrument's data: a closed candle, a trade,
/// or anything else.
#[derive(Clone, Copy, Debug)]
pub enum MarketDataEvent {
    Candle(Candle),
    Trade,
    Other,
}

/// Strategy data kept for one instrument: its analysis and the configuration
/// the analysis runs with.
#[derive(Clone, Debug)]
pub struct IctInstrumentData {
    pub ict_data: IctAnalysisData,
    pub config: IctConfig,
}

impl Default for IctInstrumentData {
    fn default() -> (d: Self)
        ensures
            d.ict_data@ == empty_state(),
            d.config == default_config(),
    {
        IctInstrumentData { ict_data: IctAnalysisData::default(), config: IctConfig::default() }
    }
}

impl IctInstrumentData {
    /// Instrument data holding the given analysis, analysing with the given
    /// configuration.
    pub fn new(ict_data: IctAnalysisData, config: IctConfig) -> (d: Self)
        ensures
            d.ict_data@ == ict_data@,
            d.config == config,
    {
        IctInstrumentData { ict_data, config }
    }

    /// Processes market data: a candle is analysed with this data's
    /// configuration; trades and other events leave the analysis unchanged.
    pub fn process(&mut self, event: &MarketDataEvent)
        ensures
            final(self).config == old(self).config,
            final(self).ict_data@ == match *event {
                MarketDataEvent::Candle(c) => process_candle_spec(old(self).ict_data@, c, old(self).config),
                _ => old(self).ict_data@,
            },
    {
        match event {
            MarketDataEvent::Candle(candle) => {
                let config = self.config;
                self.ict_data.process_candle(candle, &config);
            },
            MarketDataEvent::Trade => {},
            MarketDataEvent::Other => {},
        }
    }
}

/// Side of an order or a position.
#[derive(Clone, Copy, Debug, PartialEq, Eq, Structural)]
pub enum Side {
    Buy,
    Sell,
}

/// The side that closes a position of the given side.
pub open spec fn opposite(side: Side) -> Side {
    match side {
        Side::Buy => Side::Sell,
        Side::Sell => Side::Buy,
    }
}

/// Kind of an order.
#[derive(Clone, Copy, Debug, PartialEq, Eq, Structural)]
pub enum OrderKind {
    Market,
    Limit,
}

/// How long an order stays active.
#[derive(Clone, Copy, Debug, PartialEq, Eq, Structural)]
pub enum TimeInForce {
    GoodUntilCancelled { post_only: bool },
    GoodUntilEndOfDay,
    FillOrKill,
    ImmediateOrCancel,
}

/// An order to open: where, for which strategy, which side, at what price,
/// for what quantity, of what kind and for how long.
#[derive(Debug)]
pub struct OrderIntent {
    pub exchange: usize,
    pub instrument: usize,
    pub strategy: StrategyId,
    pub side: Side,
    pub price: Decimal,
    pub quantity: Decimal,
    pub kind: OrderKind,
    pub time_in_force: TimeInForce,
}

/// An open position: its side and its absolute quantity (fixed-point).
#[derive(Clone, Copy, Debug, PartialEq, Eq, Structural)]
pub struct Position {
    pub side: Side,
    pub quantity: u64,
}

/// The state of one instrument as the strategy sees it: its exchange and
/// instrument indices, its current price (fixed-point, if known), its open
/// position (if any) and its data.
pub struct InstrumentState<'a> {
    pub exchange: usize,
    pub instrument: usize,
    pub price: Option<u64>,
    pub position: Option<Position>,
    pub data: &'a IctInstrumentData,
}

/// Which instruments a request concerns.
#[derive(Clone, Debug)]
pub enum InstrumentFilter {
    /// Every instrument.
    All,
    /// The instruments of these exchanges.
    Exchanges(Vec<usize>),
    /// These instruments.
    Instruments(Vec<usize>),
}

/// The filter admits an instrument of the given exchange and index.
pub open spec fn filter_admits(f: InstrumentFilter, exchange: usize, instrument: usize) -> bool {
    match f {
        InstrumentFilter::All => true,
        InstrumentFilter::Exchanges(v) => v@.contains(exchange),
        InstrumentFilter::Instruments(v) => v@.contains(instrument),
    }
}

/// Fixed-point prices and quantities carry eight decimals.
pub open spec fn price_decimals() -> u32 {
    8
}

/// Signal prices carry eleven decimals.
pub open spec fn signal_decimals() -> u32 {
    11
}

/// A market, immediate-or-cancel order.
pub open spec fn market_order(
    strategy: StrategyId,
    exchange: usize,
    instrument: usize,
    side: Side,
    price: Decimal,
    quantity: Decimal,
) -> OrderIntent {
    OrderIntent {
        exchange,
        instrument,
        strategy,
        side,
        price,
        quantity,
        kind: OrderKind::Market,
        time_in_force: TimeInForce::ImmediateOrCancel,
    }
}

/// The order drawn from one signal: a long buys, a short sells, at the
/// signal's entry price, for the maximum position size.
pub open spec fn intent_of_signal(strategy: IctStrategy, exchange: usize, instrument: usize, s: SignalView) -> OrderIntent {
    match s {
        SignalView::Long { entry_price, .. } => market_order(
            strategy.id,
            exchange,
            instrument,
            Side::Buy,
            decimal_from_i128_with_scale(entry_price as i128, signal_decimals()),
            strategy.config.max_position_size,
        ),
        SignalView::Short { entry_price, .. } => market_order(
            strategy.id,
            exchange,
            instrument,
            Side::Sell,
            decimal_from_i128_with_scale(entry_price as i128, signal_decimals()),
            strategy.config.max_position_size,
        ),
    }
}

/// The order drawn for one instrument, if any: it needs a price and a signal
/// at that price.
pub open spec fn intent_for(strategy: IctStrategy, s: InstrumentState) -> Option<OrderIntent> {
    match s.price {
        None => None,
        Some(p) => match signal_spec(s.data.ict_data@, p) {
            None => None,
            Some(sig) => Some(intent_of_signal(strategy, s.exchange, s.instrument, sig)),
        },
    }
}

/// The orders drawn for a sequence of instruments, in order.
pub open spec fn intents_for(strategy: IctStrategy, states: Seq<InstrumentState>) -> Seq<OrderIntent>
    decreases states.len(),
{
    if states.len() == 0 {
        Seq::empty()
    } else {
        let rest = intents_for(strategy, states.drop_last());
        match intent_for(strategy, states.last()) {
            Some(o) => rest.push(o),
            None => rest,
        }
    }
}

/// The order closing one instrument's position, if any: the filter admits
/// the instrument, it has a price and a non-empty position; the order is on
/// the opposite side, at the current price, for the whole position.
pub open spec fn close_for(strategy: IctStrategy, f: InstrumentFilter, s: InstrumentState) -> Option<OrderIntent> {
    if filter_admits(f, s.exchange, s.instrument) && s.price is Some && s.position is Some
        && s.position.unwrap().quantity > 0 {
        Some(
            market_order(
                strategy.id,
                s.exchange,
                s.instrument,
                opposite(s.position.unwrap().side),
                decimal_from_i128_with_scale(s.price.unwrap() as i128, price_decimals()),
                decimal_from_i128_with_scale(s.position.unwrap().quantity as i128, price_decimals()),
            ),
        )
    } else {
        None
    }
}

/// The orders closing the positions of a sequence of instruments, in order.
pub open spec fn closes_for(strategy: IctStrategy, f: InstrumentFilter, states: Seq<InstrumentState>) -> Seq<OrderIntent>
    decreases states.len(),
{
    if states.len() == 0 {
        Seq::empty()
    } else {
        let rest = closes_for(strategy, f, states.drop_last());
        match close_for(strategy, f, states.last()) {
            Some(o) => rest.push(o),
            None => rest,
        }
    }
}

/// Whether `v` holds `x`.
fn holds(v: &Vec<usize>, x: usize) -> (r: bool)
    ensures
        r == v@.contains(x),
{
    let mut i: usize = 0;
    while i < v.len()
        invariant
            i <= v.len(),
            forall|j: int| 0 <= j < i ==> v@[j] != x,
        decreases v.len() - i,
    {
        if v[i] == x {
            return true;
        }
        i = i + 1;
    }
    false
}

/// Whether the filter admits an instrument.
fn admits(f: &InstrumentFilter, exchange: usize, instrument: usize) -> (r: bool)
    ensures
        r == filter_admits(*f, exchange, instrument),
{
    match f {
        InstrumentFilter::All => true,
        InstrumentFilter::Exchanges(v) => holds(v, exchange),
        InstrumentFilter::Instruments(v) => holds(v, instrument),
    }
}

impl IctStrategy {
    /// A strategy with the given identifier and configuration.
    pub fn new(id: StrategyId, config: IctConfig) -> (s: Self)
        ensures
            s.id == id,
            s.config == config,
    {
        IctStrategy { id, config }
    }

    /// The data an instrument starts with under this strategy: an empty
    /// analysis that runs with the strategy's configuration.
    pub fn instrument_data(&self) -> (d: IctInstrumentData)
        ensures
            d.ict_data@ == empty_state(),
            d.config == self.config,
    {
        IctInstrumentData { ict_data: IctAnalysisData::default(), config: self.config }
    }

    /// A market, immediate-or-cancel order of this strategy.
    fn market_order_of(&self, exchange: usize, instrument: usize, side: Side, price: Decimal, quantity: Decimal) -> (o: OrderIntent)
        ensures
            o == market_order(self.id, exchange, instrument, side, price, quantity),
    {
        OrderIntent {
            exchange,
            instrument,
            strategy: StrategyId(self.id.0.clone()),
            side,
            price,
            quantity,
            kind: OrderKind::Market,
            time_in_force: TimeInForce::ImmediateOrCancel,
        }
    }

    /// The order drawn for one instrument, if any.
    fn order_for(&self, state: &InstrumentState) -> (o: Option<OrderIntent>)
        ensures
            o == intent_for(*self, *state),
    {
        match state.price {
            None => None,
            Some(current_price) => {
                proof {
                    law_signal_well_formed(state.data.ict_data@, current_price);
                }
                match state.data.ict_data.generate_signal(current_price, &self.config) {
                    None => None,
                    Some(IctSignal::Long { entry_price, .. }) => {
                        let price = decimal_from_fixed(entry_price as i128, 11);
                        Some(
                            self.market_order_of(
                                state.exchange,
                                state.instrument,
                                Side::Buy,
                                price,
                                self.config.max_position_size,
                            ),
                        )
                    },
                    Some(IctSignal::Short { entry_price, .. }) => {
                        let price = decimal_from_fixed(entry_price as i128, 11);
                        Some(
                            self.market_order_of(
                                state.exchange,
                                state.instrument,
                                Side::Sell,
                                price,
                                self.config.max_position_size,
                            ),
                        )
                    },
                }
            },
        }
    }

    /// Orders to open for the instruments, in order: for each instrument with
    /// a price and a signal, a market immediate-or-cancel order of this
    /// strategy on the signal's side, at its entry price, for the maximum
    /// position size. No orders are cancelled.
    pub fn generate_algo_orders(&self, instruments: &Vec<InstrumentState>) -> (orders: Vec<OrderIntent>)
        ensures
            orders@ == intents_for(*self, instruments@),
    {
        let mut orders: Vec<OrderIntent> = Vec::new();
        let mut i: usize = 0;
        while i < instruments.len()
            invariant
                i <= instruments@.len(),
                orders@ == intents_for(*self, instruments@.subrange(0, i as int)),
            decreases instruments@.len() - i,
        {
            let o = self.order_for(&instruments[i]);
            proof {
                assert(instruments@.subrange(0, i + 1).drop_last() =~= instruments@.subrange(0, i as int));
            }
            if let Some(order) = o {
                orders.push(order);
            }
            i = i + 1;
        }
        proof {
            assert(instruments@.subrange(0, instruments@.len() as int) =~= instruments@);
        }
        orders
    }

    /// The order closing one instrument's position, if any.
    fn close_order_for(&self, filter: &InstrumentFilter, state: &InstrumentState) -> (o: Option<OrderIntent>)
        ensures
            o == close_for(*self, *filter, *state),
    {
        if !admits(filter, state.exchange, state.instrument) {
            return None;
        }
        match (state.price, state.position) {
            (Some(price), Some(position)) => {
                if position.quantity == 0 {
                    return None;
                }
                let side = match position.side {
                    Side::Buy => Side::Sell,
                    Side::Sell => Side::Buy,
                };
                let price = decimal_from_fixed(price as i128, 8);
                let quantity = decimal_from_fixed(position.quantity as i128, 8);
                Some(self.market_order_of(state.exchange, state.instrument, side, price, quantity))
            },
            _ => None,
        }
    }

    /// Orders closing every open position of the instruments the filter
    /// admits, in order: for each such instrument with a price and a
    /// non-empty position, a market immediate-or-cancel order of this
    /// strategy on the opposite side, at the current price, for the whole
    /// position. No orders are cancelled.
    pub fn close_positions_requests(&self, instruments: &Vec<InstrumentState>, filter: &InstrumentFilter) -> (orders: Vec<OrderIntent>)
        ensures
            orders@ == closes_for(*self, *filter, instruments@),
    {
        let mut orders: Vec<OrderIntent> = Vec::new();
        let mut i: usize = 0;
        while i < instruments.len()
            invariant
                i <= instruments@.len(),
                orders@ == closes_for(*self, *filter, instruments@.subrange(0, i as int)),
            decreases instruments@.len() - i,
        {
            let o = self.close_order_for(filter, &instruments[i]);
            proof {
                assert(instruments@.subrange(0, i + 1).drop_last() =~= instruments@.subrange(0, i as int));
            }
            if let Some(order) = o {
                orders.push(order);
            }
            i = i + 1;
        }
        proof {
            assert(instruments@.subrange(0, instruments@.len() as int) =~= instruments@);
        }
        orders
    }
}

} // verus!
