use vstd::prelude::*;

verus! {

// The rule sets below are generic in `R`, the real-number type in which prices, factors and
// thresholds are given; the library stores such bounds and hands them back, and only the integer
// bounds are checked here.

/// Bounds on the parameters of technical indicators; `None` leaves a side unbounded.
#[derive(Debug, Clone)]
pub struct TechnicalIndicatorRules<R> {
    pub period_min: Option<u16>,
    pub period_max: Option<u16>,
    pub std_dev_min: Option<R>,
    pub std_dev_max: Option<R>,
    pub rsi_min: Option<u8>,
    pub rsi_max: Option<u8>,
    pub confidence_threshold_min: Option<R>,
    pub confidence_threshold_max: Option<R>,
}

impl<R> Default for TechnicalIndicatorRules<R> {
    /// No bound at all.
    fn default() -> (r: Self)
        ensures
            r.period_min is None,
            r.period_max is None,
            r.std_dev_min is None,
            r.std_dev_max is None,
            r.rsi_min is None,
            r.rsi_max is None,
            r.confidence_threshold_min is None,
            r.confidence_threshold_max is None,
    {
        TechnicalIndicatorRules {
            period_min: None,
            period_max: None,
            std_dev_min: None,
            std_dev_max: None,
            rsi_min: None,
            rsi_max: None,
            confidence_threshold_min: None,
            confidence_threshold_max: None,
        }
    }
}

/// Bounds on position sizes, stop losses and take profits.
#[derive(Debug, Clone)]
pub struct TradingRules<R> {
    pub position_size_min: Option<R>,
    pub position_size_max: Option<R>,
    pub stop_loss_min: Option<R>,
    pub stop_loss_max: Option<R>,
    pub take_profit_min: Option<R>,
    pub take_profit_max: Option<R>,
}

impl<R> Default for TradingRules<R> {
    /// No bound at all.
    fn default() -> (r: Self)
        ensures
            r.position_size_min is None,
            r.position_size_max is None,
            r.stop_loss_min is None,
            r.stop_loss_max is None,
            r.take_profit_min is None,
            r.take_profit_max is None,
    {
        TradingRules {
            position_size_min: None,
            position_size_max: None,
            stop_loss_min: None,
            stop_loss_max: None,
            take_profit_min: None,
            take_profit_max: None,
        }
    }
}

/// Limits that protect the portfolio.
#[derive(Debug, Clone)]
pub struct RiskManagementRules<R> {
    pub max_concurrent_positions: Option<u32>,
    pub min_price: Option<R>,
    pub max_price: Option<R>,
    pub min_volume: Option<u64>,
    pub max_drawdown_percent: Option<R>,
}

impl<R> Default for RiskManagementRules<R> {
    /// No limit at all.
    fn default() -> (r: Self)
        ensures
            r.max_concurrent_positions is None,
            r.min_price is None,
            r.max_price is None,
            r.min_volume is None,
            r.max_drawdown_percent is None,
    {
        RiskManagementRules {
            max_concurrent_positions: None,
            min_price: None,
            max_price: None,
            min_volume: None,
            max_drawdown_percent: None,
        }
    }
}

/// When positions may be held and traded.
#[derive(Debug, Clone)]
pub struct MarketHoursRules {
    pub min_holding_minutes: Option<u32>,
    pub max_holding_minutes: Option<u32>,
    pub trading_start_hour: Option<u8>,
    pub trading_end_hour: Option<u8>,
    pub exclude_first_minutes: Option<u32>,
    pub exclude_last_minutes: Option<u32>,
}

impl Default for MarketHoursRules {
    /// No restriction at all.
    fn default() -> (r: Self)
        ensures
            r.min_holding_minutes is None,
            r.max_holding_minutes is None,
            r.trading_start_hour is None,
            r.trading_end_hour is None,
            r.exclude_first_minutes is None,
            r.exclude_last_minutes is None,
    {
        MarketHoursRules {
            min_holding_minutes: None,
            max_holding_minutes: None,
            trading_start_hour: None,
            trading_end_hour: None,
            exclude_first_minutes: None,
            exclude_last_minutes: None,
        }
    }
}

/// All the rules a strategy configuration is checked against.
#[derive(Debug, Clone)]
pub struct DomainRules<R> {
    pub technical_indicators: TechnicalIndicatorRules<R>,
    pub trading_rules: TradingRules<R>,
    pub risk_management: RiskManagementRules<R>,
    pub market_hours: MarketHoursRules,
}

impl<R> Default for DomainRules<R> {
    /// Every rule set without any bound.
    fn default() -> (r: Self)
        ensures
            r.technical_indicators.period_min is None,
            r.technical_indicators.period_max is None,
            r.technical_indicators.std_dev_min is None,
            r.technical_indicators.std_dev_max is None,
            r.technical_indicators.rsi_min is None,
            r.technical_indicators.rsi_max is None,
            r.technical_indicators.confidence_threshold_min is None,
            r.technical_indicators.confidence_threshold_max is None,
            r.trading_rules.position_size_min is None,
            r.trading_rules.position_size_max is None,
            r.trading_rules.stop_loss_min is None,
            r.trading_rules.stop_loss_max is None,
            r.trading_rules.take_profit_min is None,
            r.trading_rules.take_profit_max is None,
            r.risk_management.max_concurrent_positions is None,
            r.risk_management.min_price is None,
            r.risk_management.max_price is None,
            r.risk_management.min_volume is None,
            r.risk_management.max_drawdown_percent is None,
            r.market_hours.min_holding_minutes is None,
            r.market_hours.max_holding_minutes is None,
            r.market_hours.trading_start_hour is None,
            r.market_hours.trading_end_hour is None,
            r.market_hours.exclude_first_minutes is None,
            r.market_hours.exclude_last_minutes is None,
    {
        DomainRules {
            technical_indicators: TechnicalIndicatorRules::default(),
            trading_rules: TradingRules::default(),
            risk_management: RiskManagementRules::default(),
            market_hours: MarketHoursRules::default(),
        }
    }
}

} // verus!
