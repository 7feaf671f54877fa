use trading_system::data_config::{
    check_date_order, check_greek_ranges, option_type_known, Column, ConfigError, DataLoader, DataLoaderConfig,
    DateRange, DeltaRange, Greek, GreeksFilter, OpenInterestFilter, RowFilter, StrikeRange,
    VolumeFilter,
};

fn config() -> DataLoaderConfig<f64> {
    DataLoaderConfig::default()
}

fn with_dates(start: &str, end: &str) -> DataLoaderConfig<f64> {
    let mut c = config();
    c.date_range = Some(DateRange { start: start.to_string(), end: end.to_string() });
    c
}

#[test]
fn default_config() {
    let c = config();
    assert_eq!(c.data_dir, "./");
    assert_eq!(c.underlying_symbols, vec!["SPX".to_string()]);
    assert!(c.option_types.is_none());
    assert!(c.date_range.is_none());
    assert!(c.greeks_filter.is_none());
}

#[test]
fn date_range_must_parse_and_be_increasing() {
    assert!(config().validate_date_range().is_ok());
    assert!(with_dates("2024-01-01", "2024-12-31").validate_date_range().is_ok());
    match with_dates("2024-13-01", "2024-12-31").validate_date_range() {
        Err(ConfigError::InvalidStartDate { start }) => assert_eq!(start, "2024-13-01"),
        other => panic!("unexpected {:?}", other),
    }
    match with_dates("2024-01-01", "31/12/2024").validate_date_range() {
        Err(ConfigError::InvalidEndDate { end }) => assert_eq!(end, "31/12/2024"),
        other => panic!("unexpected {:?}", other),
    }
    // The start must come strictly before the end.
    assert!(matches!(
        with_dates("2024-06-01", "2024-06-01").validate_date_range(),
        Err(ConfigError::StartNotBeforeEnd)
    ));
    assert!(matches!(
        with_dates("2024-06-02", "2024-06-01").validate_date_range(),
        Err(ConfigError::StartNotBeforeEnd)
    ));
    // Dates are compared as dates, across years.
    assert!(with_dates("2023-12-31", "2024-01-01").validate_date_range().is_ok());
}

#[test]
fn date_order_from_day_numbers() {
    let range = DateRange { start: "a".to_string(), end: "b".to_string() };
    assert!(check_date_order(&range, Some(1), Some(2)).is_ok());
    assert!(matches!(
        check_date_order(&range, None, None),
        Err(ConfigError::InvalidStartDate { .. })
    ));
    assert!(matches!(
        check_date_order(&range, Some(1), None),
        Err(ConfigError::InvalidEndDate { .. })
    ));
    assert!(matches!(
        check_date_order(&range, Some(2), Some(2)),
        Err(ConfigError::StartNotBeforeEnd)
    ));
}

#[test]
fn option_types_are_call_or_put_in_any_case() {
    assert!(option_type_known(&"call".to_string()));
    assert!(option_type_known(&"put".to_string()));
    assert!(!option_type_known(&"CALL".to_string()));
    let mut c = config();
    c.option_types = Some(vec!["CALL".to_string(), "Put".to_string()]);
    assert!(c.validate_option_types().is_ok());
    c.option_types = Some(vec!["call".to_string(), "Straddle".to_string(), "xyz".to_string()]);
    match c.validate_option_types() {
        Err(ConfigError::InvalidOptionType { option_type }) => assert_eq!(option_type, "Straddle"),
        other => panic!("unexpected {:?}", other),
    }
}

#[test]
fn liquidity_ranges_must_increase() {
    let mut c = config();
    c.volume_filter = Some(VolumeFilter { min: Some(10), max: Some(100) });
    c.open_interest_filter = Some(OpenInterestFilter { min: Some(5), max: None });
    assert!(c.validate_liquidity_filters().is_ok());
    c.open_interest_filter = Some(OpenInterestFilter { min: Some(5), max: Some(5) });
    assert!(matches!(
        c.validate_liquidity_filters(),
        Err(ConfigError::OpenInterestRangeNotIncreasing)
    ));
    c.volume_filter = Some(VolumeFilter { min: Some(100), max: Some(10) });
    assert!(matches!(
        c.validate_liquidity_filters(),
        Err(ConfigError::VolumeRangeNotIncreasing)
    ));
}

#[test]
fn validation_reports_the_first_failure() {
    let ok: Result<(), ConfigError> = Ok(());
    match config().validate(false, ok.clone(), ok.clone()) {
        Err(ConfigError::DataDirMissing { data_dir }) => assert_eq!(data_dir, "./"),
        other => panic!("unexpected {:?}", other),
    }
    let mut empty = config();
    empty.underlying_symbols = vec![];
    assert!(matches!(
        empty.validate(true, ok.clone(), ok.clone()),
        Err(ConfigError::NoUnderlyingSymbols)
    ));
    assert!(matches!(
        with_dates("2024-02-01", "2024-01-01").validate(true, Err(ConfigError::NonPositiveStrike), ok.clone()),
        Err(ConfigError::StartNotBeforeEnd)
    ));
    assert!(matches!(
        config().validate(true, Err(ConfigError::NonPositiveStrike), ok.clone()),
        Err(ConfigError::NonPositiveStrike)
    ));
    let mut bad_volume = config();
    bad_volume.volume_filter = Some(VolumeFilter { min: Some(9), max: Some(1) });
    assert!(matches!(
        bad_volume.validate(
            true,
            ok.clone(),
            Err(ConfigError::GreekRangeNotIncreasing { greek: Greek::Delta })
        ),
        Err(ConfigError::VolumeRangeNotIncreasing)
    ));
    assert!(matches!(
        config().validate(
            true,
            ok.clone(),
            Err(ConfigError::GreekRangeNotIncreasing { greek: Greek::Gamma })
        ),
        Err(ConfigError::GreekRangeNotIncreasing { greek: Greek::Gamma })
    ));
    assert!(config().validate(true, ok.clone(), ok.clone()).is_ok());
}

#[test]
fn loader_filters_in_order() {
    let mut c = config();
    c.option_types = Some(vec!["call".to_string()]);
    c.strike_range = Some(StrikeRange { min: 100.0, max: 200.0 });
    c.volume_filter = Some(VolumeFilter { min: Some(10), max: None });
    c.open_interest_filter = Some(OpenInterestFilter { min: None, max: Some(500) });
    c.greeks_filter = Some(GreeksFilter {
        delta_range: Some(DeltaRange { min: Some(-0.5), max: None }),
        gamma_range: None,
        theta_range: None,
        vega_range: None,
        iv_range: None,
    });
    c.date_range = Some(DateRange { start: "2024-01-01".to_string(), end: "2024-02-01".to_string() });
    let loader = DataLoader::new(c).unwrap();
    let plan = loader.options_filters();
    assert_eq!(plan.len(), 6);
    assert!(matches!(&plan[0], RowFilter::IsIn { column: Column::Underlying, values } if values == &vec!["SPX".to_string()]));
    assert!(matches!(&plan[1], RowFilter::IsIn { column: Column::OptionType, values } if values == &vec!["call".to_string()]));
    assert!(matches!(plan[2], RowFilter::Between { column: Column::Strike, min, max } if min == 100.0 && max == 200.0));
    assert!(matches!(plan[3], RowFilter::IntAtLeast { column: Column::Volume, bound: 10 }));
    assert!(matches!(plan[4], RowFilter::IntAtMost { column: Column::OpenInterest, bound: 500 }));
    assert!(matches!(plan[5], RowFilter::AtLeast { column: Column::Delta, bound } if bound == -0.5));
    assert_eq!(
        loader.date_filter(),
        Some(("2024-01-01".to_string(), "2024-02-01".to_string()))
    );
}

#[test]
fn default_loader_keeps_only_the_underlying() {
    let loader = DataLoader::new(config()).unwrap();
    let plan = loader.options_filters();
    assert_eq!(plan.len(), 1);
    assert!(loader.date_filter().is_none());
}

#[test]
fn a_valid_config_passes_each_check() {
    let mut c = with_dates("2024-01-02", "2024-03-29");
    c.option_types = Some(vec!["Call".to_string()]);
    c.volume_filter = Some(VolumeFilter { min: Some(1), max: Some(2) });
    assert!(c.validate(true, Ok(()), Ok(())).is_ok());
    assert!(c.validate_date_range().is_ok());
    assert!(c.validate_option_types().is_ok());
    assert!(c.validate_liquidity_filters().is_ok());
}

#[test]
fn column_names_match_the_data_files() {
    assert_eq!(Column::Underlying.name(), "underlying");
    assert_eq!(Column::OptionType.name(), "type");
    assert_eq!(Column::OpenInterest.name(), "open_interest");
    assert_eq!(Column::ImpliedVolatility.name(), "implied_volatility");
}

#[test]
fn first_failing_greek_is_reported() {
    assert!(check_greek_ranges(false, false, false, false, false).is_ok());
    assert!(matches!(
        check_greek_ranges(false, true, false, true, false),
        Err(ConfigError::GreekRangeNotIncreasing { greek: Greek::Gamma })
    ));
    assert!(matches!(
        check_greek_ranges(false, false, false, false, true),
        Err(ConfigError::GreekRangeNotIncreasing { greek: Greek::ImpliedVolatility })
    ));
}
