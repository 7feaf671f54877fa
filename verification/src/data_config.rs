use vstd::prelude::*;

verus! {

// Configuration of the options and stocks data loader. `R` is the real-number type of strike
// and greek bounds; checks that compare such values are made where they are computed with, and
// their outcomes are handed to `DataLoaderConfig::validate`.

/// Dates as `YYYY-MM-DD` text; both ends included.
#[derive(Debug, Clone)]
pub struct DateRange {
    pub start: String,
    pub end: String,
}

/// Strike prices to keep; both ends included.
#[derive(Debug, Clone, Copy)]
pub struct StrikeRange<R> {
    pub min: R,
    pub max: R,
}

/// Bounds on the traded volume.
#[derive(Debug, Clone, Copy)]
pub struct VolumeFilter {
    pub min: Option<i64>,
    pub max: Option<i64>,
}

/// Bounds on the open interest.
#[derive(Debug, Clone, Copy)]
pub struct OpenInterestFilter {
    pub min: Option<i64>,
    pub max: Option<i64>,
}

/// Bounds on delta.
#[derive(Debug, Clone, Copy)]
pub struct DeltaRange<R> {
    pub min: Option<R>,
    pub max: Option<R>,
}

/// Bounds on gamma.
#[derive(Debug, Clone, Copy)]
pub struct GammaRange<R> {
    pub min: Option<R>,
    pub max: Option<R>,
}

/// Bounds on theta.
#[derive(Debug, Clone, Copy)]
pub struct ThetaRange<R> {
    pub min: Option<R>,
    pub max: Option<R>,
}

/// Bounds on vega.
#[derive(Debug, Clone, Copy)]
pub struct VegaRange<R> {
    pub min: Option<R>,
    pub max: Option<R>,
}

/// Bounds on the implied volatility.
#[derive(Debug, Clone, Copy)]
pub struct IvRange<R> {
    pub min: Option<R>,
    pub max: Option<R>,
}

/// Bounds on the greeks.
#[derive(Debug, Clone, Copy)]
pub struct GreeksFilter<R> {
    pub delta_range: Option<DeltaRange<R>>,
    pub gamma_range: Option<GammaRange<R>>,
    pub theta_range: Option<ThetaRange<R>>,
    pub vega_range: Option<VegaRange<R>>,
    pub iv_range: Option<IvRange<R>>,
}

/// Where the data files are and which rows to keep.
#[derive(Debug, Clone)]
pub struct DataLoaderConfig<R> {
    pub data_dir: String,
    pub underlying_symbols: Vec<String>,
    pub option_types: Option<Vec<String>>,
    pub date_range: Option<DateRange>,
    pub strike_range: Option<StrikeRange<R>>,
    pub volume_filter: Option<VolumeFilter>,
    pub open_interest_filter: Option<OpenInterestFilter>,
    pub greeks_filter: Option<GreeksFilter<R>>,
}

impl<R> Default for DataLoaderConfig<R> {
    /// The current directory, the SPX index, and no filter.
    fn default() -> (c: Self)
        ensures
            c.data_dir@ == "./"@,
            c.underlying_symbols@.len() == 1,
            c.underlying_symbols@[0]@ == "SPX"@,
            c.option_types is None,
            c.date_range is None,
            c.strike_range is None,
            c.volume_filter is None,
            c.open_interest_filter is None,
            c.greeks_filter is None,
    {
        let mut underlying_symbols: Vec<String> = Vec::new();
        underlying_symbols.push("SPX".to_owned());
        DataLoaderConfig {
            data_dir: "./".to_owned(),
            underlying_symbols,
            date_range: None,
            option_types: None,
            strike_range: None,
            volume_filter: None,
            greeks_filter: None,
            open_interest_filter: None,
        }
    }
}

/// The day number that `chrono::NaiveDate::parse_from_str` gives `text` read with `format`
/// (days from the Common Era, as `Datelike::num_days_from_ce` counts them), or `None` when the
/// text does not parse as a date in that format.
pub uninterp spec fn parsed_day_number(text: Seq<char>, format: Seq<char>) -> Option<i32>;

/// Calls `chrono::NaiveDate::parse_from_str(text, format)` and turns the date into its day
/// number (`Datelike::num_days_from_ce`, which orders dates as `NaiveDate` does). Claimed: the
/// result is a function of the text and the format alone, named `parsed_day_number`.
#[verifier::external_body]
fn parse_day_number(text: &str, format: &str) -> (day: Option<i32>)
    ensures
        day == parsed_day_number(text@, format@),
{
    match chrono::NaiveDate::parse_from_str(text, format) {
        Ok(date) => Some(chrono::Datelike::num_days_from_ce(&date)),
        Err(_) => None,
    }
}

/// The result of `str::to_lowercase` on `s`.
pub uninterp spec fn lowercased(s: Seq<char>) -> Seq<char>;

/// Calls `str::to_lowercase`: the lowercase mapping of every character, a function of the text
/// alone, named `lowercased`.
#[verifier::external_body]
fn to_lowercase(s: &str) -> (lower: String)
    ensures
        lower@ == lowercased(s@),
{
    s.to_lowercase()
}

/// Why a data loader configuration was refused.
#[derive(Debug, Clone)]
pub enum ConfigError {
    DataDirMissing { data_dir: String },
    NoUnderlyingSymbols,
    InvalidStartDate { start: String },
    InvalidEndDate { end: String },
    StartNotBeforeEnd,
    InvalidOptionType { option_type: String },
    NonPositiveStrike,
    StrikeRangeNotIncreasing,
    VolumeRangeNotIncreasing,
    OpenInterestRangeNotIncreasing,
    GreekRangeNotIncreasing { greek: Greek },
}

/// The greeks a filter bounds.
#[derive(Debug, Clone, Copy, PartialEq, Eq)]
pub enum Greek {
    Delta,
    Gamma,
    Theta,
    Vega,
    ImpliedVolatility,
}

/// The format date-range ends are written in.
pub open spec fn date_format() -> Seq<char> {
    "%Y-%m-%d"@
}

/// The outcome of checking a date range from the day numbers its ends parse to: each end must
/// parse, start first, and the start must come strictly before the end.
pub open spec fn date_order_ok(start_day: Option<i32>, end_day: Option<i32>) -> Option<u8> {
    if start_day is None {
        Some(0)
    } else if end_day is None {
        Some(1)
    } else if start_day->0 >= end_day->0 {
        Some(2)
    } else {
        None
    }
}

/// `r` reports the range check whose outcome `date_order_ok` gives.
pub open spec fn date_check_result(
    range: DateRange,
    start_day: Option<i32>,
    end_day: Option<i32>,
    r: Result<(), ConfigError>,
) -> bool {
    match date_order_ok(start_day, end_day) {
        None => r is Ok,
        Some(0) => r matches Err(ConfigError::InvalidStartDate { start }) && start@ == range.start@,
        Some(1) => r matches Err(ConfigError::InvalidEndDate { end }) && end@ == range.end@,
        Some(_) => r matches Err(ConfigError::StartNotBeforeEnd),
    }
}

/// Checks a date range from the day numbers that its start and end parse to.
pub fn check_date_order(range: &DateRange, start_day: Option<i32>, end_day: Option<i32>) -> (r: Result<
    (),
    ConfigError,
>)
    ensures
        date_check_result(*range, start_day, end_day, r),
{
    match start_day {
        None => Err(ConfigError::InvalidStartDate { start: range.start.clone() }),
        Some(s) => match end_day {
            None => Err(ConfigError::InvalidEndDate { end: range.end.clone() }),
            Some(e) => if s >= e {
                Err(ConfigError::StartNotBeforeEnd)
            } else {
                Ok(())
            },
        },
    }
}

/// Whether a lowercased option type is one the data knows: `call` or `put`.
pub fn option_type_known(lowered: &String) -> (b: bool)
    ensures
        b == (lowered@ == "call"@ || lowered@ == "put"@),
{
    let call = "call".to_owned();
    let put = "put".to_owned();
    *lowered == call || *lowered == put
}

/// The option type names in `types` are all `call` or `put`, case aside.
pub open spec fn option_types_known(types: Seq<String>) -> bool {
    forall|i: int|
        0 <= i < types.len() ==> lowercased(#[trigger] types[i]@) == "call"@ || lowercased(types[i]@)
            == "put"@
}

/// `option_type` is the first name of `types` that is neither `call` nor `put`, case aside.
pub open spec fn first_unknown_option_type(types: Seq<String>, option_type: Seq<char>) -> bool {
    exists|i: int|
        0 <= i < types.len() && types[i]@ == option_type && !(lowercased(option_type) == "call"@
            || lowercased(option_type) == "put"@) && forall|k: int|
            0 <= k < i ==> lowercased(#[trigger] types[k]@) == "call"@ || lowercased(types[k]@)
                == "put"@
}

/// The liquidity bounds are consistent: where both ends are given, the minimum is below the
/// maximum. The volume filter is reported first.
pub open spec fn liquidity_failure(volume: Option<VolumeFilter>, oi: Option<OpenInterestFilter>) -> Option<
    bool,
> {
    if volume matches Some(f) && f.min is Some && f.max is Some && f.min->0 >= f.max->0 {
        Some(true)
    } else if oi matches Some(f) && f.min is Some && f.max is Some && f.min->0 >= f.max->0 {
        Some(false)
    } else {
        None
    }
}

/// `r` is what the whole validation yields, given whether the data directory exists and the
/// outcomes of the strike-range and greeks checks: the first failing check in the order data
/// directory, underlying symbols, date range, option types, strike range, liquidity filters,
/// greeks filters.
pub open spec fn validation_result<R>(
    c: DataLoaderConfig<R>,
    data_dir_exists: bool,
    strike_check: Result<(), ConfigError>,
    greeks_check: Result<(), ConfigError>,
    r: Result<(), ConfigError>,
) -> bool {
    if !data_dir_exists {
        r matches Err(ConfigError::DataDirMissing { data_dir }) && data_dir@ == c.data_dir@
    } else if c.underlying_symbols@.len() == 0 {
        r matches Err(ConfigError::NoUnderlyingSymbols)
    } else if c.date_range is Some && date_order_ok(
        parsed_day_number(c.date_range->0.start@, date_format()),
        parsed_day_number(c.date_range->0.end@, date_format()),
    ) is Some {
        date_check_result(
            c.date_range->0,
            parsed_day_number(c.date_range->0.start@, date_format()),
            parsed_day_number(c.date_range->0.end@, date_format()),
            r,
        )
    } else if c.option_types is Some && !option_types_known(c.option_types->0@) {
        r matches Err(ConfigError::InvalidOptionType { option_type }) && first_unknown_option_type(
            c.option_types->0@,
            option_type@,
        )
    } else if strike_check is Err {
        r == strike_check
    } else if liquidity_failure(c.volume_filter, c.open_interest_filter) is Some {
        if liquidity_failure(c.volume_filter, c.open_interest_filter)->0 {
            r matches Err(ConfigError::VolumeRangeNotIncreasing)
        } else {
            r matches Err(ConfigError::OpenInterestRangeNotIncreasing)
        }
    } else {
        r == greeks_check
    }
}

/// The first greek whose range does not increase, in the order delta, gamma, theta, vega,
/// implied volatility; each flag says whether that greek's range fails (both bounds given and the
/// minimum not below the maximum).
pub open spec fn first_bad_greek(delta: bool, gamma: bool, theta: bool, vega: bool, iv: bool) -> Option<
    Greek,
> {
    if delta {
        Some(Greek::Delta)
    } else if gamma {
        Some(Greek::Gamma)
    } else if theta {
        Some(Greek::Theta)
    } else if vega {
        Some(Greek::Vega)
    } else if iv {
        Some(Greek::ImpliedVolatility)
    } else {
        None
    }
}

/// Checks the greek ranges from whether each fails to increase, reporting the first that fails.
pub fn check_greek_ranges(delta: bool, gamma: bool, theta: bool, vega: bool, iv: bool) -> (r: Result<
    (),
    ConfigError,
>)
    ensures
        match first_bad_greek(delta, gamma, theta, vega, iv) {
            None => r is Ok,
            Some(g) => r matches Err(ConfigError::GreekRangeNotIncreasing { greek }) && greek == g,
        },
{
    if delta {
        Err(ConfigError::GreekRangeNotIncreasing { greek: Greek::Delta })
    } else if gamma {
        Err(ConfigError::GreekRangeNotIncreasing { greek: Greek::Gamma })
    } else if theta {
        Err(ConfigError::GreekRangeNotIncreasing { greek: Greek::Theta })
    } else if vega {
        Err(ConfigError::GreekRangeNotIncreasing { greek: Greek::Vega })
    } else if iv {
        Err(ConfigError::GreekRangeNotIncreasing { greek: Greek::ImpliedVolatility })
    } else {
        Ok(())
    }
}

/// A configuration that validates passes every check on its own: the data directory exists,
/// some underlying symbol is given, the date range parses in order, every option type is a call
/// or a put, the strike check passed, the liquidity bounds increase and the greeks check passed.
pub proof fn law_valid_config_passes_each_check<R>(
    c: DataLoaderConfig<R>,
    data_dir_exists: bool,
    strike_check: Result<(), ConfigError>,
    greeks_check: Result<(), ConfigError>,
)
    requires
        validation_result(c, data_dir_exists, strike_check, greeks_check, Ok(())),
    ensures
        data_dir_exists,
        c.underlying_symbols@.len() > 0,
        c.date_range matches Some(d) ==> date_order_ok(
            parsed_day_number(d.start@, date_format()),
            parsed_day_number(d.end@, date_format()),
        ) is None,
        c.option_types matches Some(t) ==> option_types_known(t@),
        strike_check is Ok,
        liquidity_failure(c.volume_filter, c.open_interest_filter) is None,
        greeks_check is Ok,
{
}

impl<R> DataLoaderConfig<R> {
    /// Checks the date range: both ends must parse as `YYYY-MM-DD` dates and the start must come
    /// before the end.
    pub fn validate_date_range(&self) -> (r: Result<(), ConfigError>)
        ensures
            match self.date_range {
                None => r is Ok,
                Some(range) => date_check_result(
                    range,
                    parsed_day_number(range.start@, date_format()),
                    parsed_day_number(range.end@, date_format()),
                    r,
                ),
            },
    {
        match &self.date_range {
            None => Ok(()),
            Some(range) => {
                let format = "%Y-%m-%d";
                proof {
                    reveal_strlit("%Y-%m-%d");
                }
                let start_day = parse_day_number(range.start.as_str(), format);
                let end_day = if start_day.is_some() {
                    parse_day_number(range.end.as_str(), format)
                } else {
                    None
                };
                proof {
                    if start_day is Some {
                        assert(end_day == parsed_day_number(range.end@, date_format()));
                    }
                }
                check_date_order(range, start_day, end_day)
            },
        }
    }

    /// Checks that every option type is `call` or `put`, case aside; refuses the first that is not.
    pub fn validate_option_types(&self) -> (r: Result<(), ConfigError>)
        ensures
            match self.option_types {
                None => r is Ok,
                Some(types) => (r is Ok <==> option_types_known(types@)) && (r is Err ==> (
                r matches Err(ConfigError::InvalidOptionType { option_type })
                    && first_unknown_option_type(types@, option_type@))),
            },
    {
        match &self.option_types {
            None => Ok(()),
            Some(types) => {
                let mut i: usize = 0;
                while i < types.len()
                    invariant
                        self.option_types is Some,
                        self.option_types->0@ == types@,
                        i <= types@.len(),
                        forall|k: int|
                            0 <= k < i ==> lowercased(#[trigger] types@[k]@) == "call"@ || lowercased(
                                types@[k]@,
                            ) == "put"@,
                    decreases types@.len() - i,
                {
                    let lowered = to_lowercase(types[i].as_str());
                    if !option_type_known(&lowered) {
                        proof {
                            assert(!(lowercased(types@[i as int]@) == "call"@ || lowercased(
                                types@[i as int]@,
                            ) == "put"@));
                        }
                        return Err(ConfigError::InvalidOptionType { option_type: types[i].clone() });
                    }
                    i = i + 1;
                }
                Ok(())
            },
        }
    }

    /// Checks that where a liquidity filter gives both ends, the minimum is below the maximum;
    /// the volume filter first.
    pub fn validate_liquidity_filters(&self) -> (r: Result<(), ConfigError>)
        ensures
            match liquidity_failure(self.volume_filter, self.open_interest_filter) {
                None => r is Ok,
                Some(true) => r matches Err(ConfigError::VolumeRangeNotIncreasing),
                Some(false) => r matches Err(ConfigError::OpenInterestRangeNotIncreasing),
            },
    {
        if let Some(filter) = &self.volume_filter {
            if let (Some(min), Some(max)) = (filter.min, filter.max) {
                if min >= max {
                    return Err(ConfigError::VolumeRangeNotIncreasing);
                }
            }
        }
        if let Some(filter) = &self.open_interest_filter {
            if let (Some(min), Some(max)) = (filter.min, filter.max) {
                if min >= max {
                    return Err(ConfigError::OpenInterestRangeNotIncreasing);
                }
            }
        }
        Ok(())
    }

    /// Validates the whole configuration. `data_dir_exists` says whether the data directory
    /// exists; `strike_check` and `greeks_check` are the outcomes of checking the strike range
    /// and the greek ranges. The first failing check decides, in the order data directory,
    /// underlying symbols, date range, option types, strike range, liquidity, greeks.
    pub fn validate(
        &self,
        data_dir_exists: bool,
        strike_check: Result<(), ConfigError>,
        greeks_check: Result<(), ConfigError>,
    ) -> (r: Result<(), ConfigError>)
        ensures
            validation_result(*self, data_dir_exists, strike_check, greeks_check, r),
    {
        if !data_dir_exists {
            return Err(ConfigError::DataDirMissing { data_dir: self.data_dir.clone() });
        }
        if self.underlying_symbols.len() == 0 {
            return Err(ConfigError::NoUnderlyingSymbols);
        }
        let date = self.validate_date_range();
        if date.is_err() {
            return date;
        }
        let types = self.validate_option_types();
        if types.is_err() {
            proof {
                assert(self.date_range is Some ==> date_order_ok(
                    parsed_day_number(self.date_range->0.start@, date_format()),
                    parsed_day_number(self.date_range->0.end@, date_format()),
                ) is None);
                assert(self.option_types is Some);
                assert(!option_types_known(self.option_types->0@));
            }
            return types;
        }
        if strike_check.is_err() {
            return strike_check;
        }
        let liquidity = self.validate_liquidity_filters();
        if liquidity.is_err() {
            return liquidity;
        }
        greeks_check
    }
}

/// Columns of the options data that rows are filtered on.
#[derive(Debug, Clone, Copy, PartialEq, Eq)]
pub enum Column {
    Underlying,
    OptionType,
    Strike,
    Volume,
    OpenInterest,
    Delta,
    Gamma,
    Theta,
    Vega,
    ImpliedVolatility,
}

/// The name of a column in the options data files.
pub open spec fn column_text(c: Column) -> Seq<char> {
    match c {
        Column::Underlying => "underlying"@,
        Column::OptionType => "type"@,
        Column::Strike => "strike"@,
        Column::Volume => "volume"@,
        Column::OpenInterest => "open_interest"@,
        Column::Delta => "delta"@,
        Column::Gamma => "gamma"@,
        Column::Theta => "theta"@,
        Column::Vega => "vega"@,
        Column::ImpliedVolatility => "implied_volatility"@,
    }
}

impl Column {
    /// The name of the column in the options data files.
    pub fn name(&self) -> (s: &'static str)
        ensures
            s@ == column_text(*self),
    {
        match self {
            Column::Underlying => "underlying",
            Column::OptionType => "type",
            Column::Strike => "strike",
            Column::Volume => "volume",
            Column::OpenInterest => "open_interest",
            Column::Delta => "delta",
            Column::Gamma => "gamma",
            Column::Theta => "theta",
            Column::Vega => "vega",
            Column::ImpliedVolatility => "implied_volatility",
        }
    }
}

/// One condition a row must meet to be kept.
#[derive(Debug, Clone)]
pub enum RowFilter<R> {
    IsIn { column: Column, values: Vec<String> },
    Between { column: Column, min: R, max: R },
    IntAtLeast { column: Column, bound: i64 },
    IntAtMost { column: Column, bound: i64 },
    AtLeast { column: Column, bound: R },
    AtMost { column: Column, bound: R },
}

/// A row condition with its text values as character sequences.
pub enum FilterView<R> {
    IsIn { column: Column, values: Seq<Seq<char>> },
    Between { column: Column, min: R, max: R },
    IntAtLeast { column: Column, bound: i64 },
    IntAtMost { column: Column, bound: i64 },
    AtLeast { column: Column, bound: R },
    AtMost { column: Column, bound: R },
}

/// The character sequences of a list of strings.
pub open spec fn string_views(v: Seq<String>) -> Seq<Seq<char>> {
    v.map_values(|s: String| s@)
}

/// The condition `f` stands for.
pub open spec fn filter_view<R>(f: RowFilter<R>) -> FilterView<R> {
    match f {
        RowFilter::IsIn { column, values } => FilterView::IsIn { column, values: string_views(values@) },
        RowFilter::Between { column, min, max } => FilterView::Between { column, min, max },
        RowFilter::IntAtLeast { column, bound } => FilterView::IntAtLeast { column, bound },
        RowFilter::IntAtMost { column, bound } => FilterView::IntAtMost { column, bound },
        RowFilter::AtLeast { column, bound } => FilterView::AtLeast { column, bound },
        RowFilter::AtMost { column, bound } => FilterView::AtMost { column, bound },
    }
}

/// The conditions of an integer range filter: at least the minimum, at most the maximum, each
/// when given.
pub open spec fn int_bound_filters<R>(column: Column, min: Option<i64>, max: Option<i64>) -> Seq<
    FilterView<R>,
> {
    (if min is Some {
        seq![FilterView::IntAtLeast { column, bound: min->0 }]
    } else {
        Seq::empty()
    }) + (if max is Some {
        seq![FilterView::IntAtMost { column, bound: max->0 }]
    } else {
        Seq::empty()
    })
}

/// The conditions of a real range filter: at least the minimum, at most the maximum, each when
/// given.
pub open spec fn bound_filters<R>(column: Column, min: Option<R>, max: Option<R>) -> Seq<FilterView<R>> {
    (if min is Some {
        seq![FilterView::AtLeast { column, bound: min->0 }]
    } else {
        Seq::empty()
    }) + (if max is Some {
        seq![FilterView::AtMost { column, bound: max->0 }]
    } else {
        Seq::empty()
    })
}

/// The conditions of a range filter that may be absent.
pub open spec fn optional_bound_filters<R>(column: Column, range: Option<(Option<R>, Option<R>)>) -> Seq<
    FilterView<R>,
> {
    match range {
        Some((min, max)) => bound_filters(column, min, max),
        None => Seq::empty(),
    }
}

/// The bounds of a greek range, when it is given.
pub open spec fn delta_bounds<R>(r: Option<DeltaRange<R>>) -> Option<(Option<R>, Option<R>)> {
    match r {
        Some(d) => Some((d.min, d.max)),
        None => None,
    }
}

pub open spec fn gamma_bounds<R>(r: Option<GammaRange<R>>) -> Option<(Option<R>, Option<R>)> {
    match r {
        Some(d) => Some((d.min, d.max)),
        None => None,
    }
}

pub open spec fn theta_bounds<R>(r: Option<ThetaRange<R>>) -> Option<(Option<R>, Option<R>)> {
    match r {
        Some(d) => Some((d.min, d.max)),
        None => None,
    }
}

pub open spec fn vega_bounds<R>(r: Option<VegaRange<R>>) -> Option<(Option<R>, Option<R>)> {
    match r {
        Some(d) => Some((d.min, d.max)),
        None => None,
    }
}

pub open spec fn iv_bounds<R>(r: Option<IvRange<R>>) -> Option<(Option<R>, Option<R>)> {
    match r {
        Some(d) => Some((d.min, d.max)),
        None => None,
    }
}

/// The conditions a greeks filter imposes, delta to implied volatility.
pub open spec fn greeks_filters<R>(g: GreeksFilter<R>) -> Seq<FilterView<R>> {
    optional_bound_filters(Column::Delta, delta_bounds(g.delta_range))
        + optional_bound_filters(Column::Gamma, gamma_bounds(g.gamma_range))
        + optional_bound_filters(Column::Theta, theta_bounds(g.theta_range))
        + optional_bound_filters(Column::Vega, vega_bounds(g.vega_range))
        + optional_bound_filters(Column::ImpliedVolatility, iv_bounds(g.iv_range))
}

/// The selection conditions: the underlying among the configured symbols, the option type among
/// the configured types, the strike within its range.
pub open spec fn selection_filters<R>(c: DataLoaderConfig<R>) -> Seq<FilterView<R>> {
    (if c.underlying_symbols@.len() > 0 {
        seq![FilterView::IsIn { column: Column::Underlying, values: string_views(c.underlying_symbols@) }]
    } else {
        Seq::empty()
    }) + (if c.option_types is Some && c.option_types->0@.len() > 0 {
        seq![FilterView::IsIn { column: Column::OptionType, values: string_views(c.option_types->0@) }]
    } else {
        Seq::empty()
    }) + (if c.strike_range is Some {
        seq![
            FilterView::Between {
                column: Column::Strike,
                min: c.strike_range->0.min,
                max: c.strike_range->0.max,
            },
        ]
    } else {
        Seq::empty()
    })
}

/// The liquidity conditions: volume bounds, then open-interest bounds.
pub open spec fn liquidity_filters<R>(c: DataLoaderConfig<R>) -> Seq<FilterView<R>> {
    (if c.volume_filter is Some {
        int_bound_filters(Column::Volume, c.volume_filter->0.min, c.volume_filter->0.max)
    } else {
        Seq::empty()
    }) + (if c.open_interest_filter is Some {
        int_bound_filters(
            Column::OpenInterest,
            c.open_interest_filter->0.min,
            c.open_interest_filter->0.max,
        )
    } else {
        Seq::empty()
    })
}

/// The conditions the options rows must meet, in the order they are applied: selection, then
/// liquidity, then greeks.
pub open spec fn options_filters<R>(c: DataLoaderConfig<R>) -> Seq<FilterView<R>> {
    selection_filters(c) + liquidity_filters(c) + (if c.greeks_filter is Some {
        greeks_filters(c.greeks_filter->0)
    } else {
        Seq::empty()
    })
}

proof fn lemma_contains_concat<T>(a: Seq<T>, b: Seq<T>, x: T)
    ensures
        a.contains(x) ==> (a + b).contains(x),
        b.contains(x) ==> (a + b).contains(x),
{
    if a.contains(x) {
        let i = choose|i: int| 0 <= i < a.len() && a[i] == x;
        assert((a + b)[i] == x);
    }
    if b.contains(x) {
        let i = choose|i: int| 0 <= i < b.len() && b[i] == x;
        assert((a + b)[a.len() + i] == x);
    }
}

proof fn lemma_bound_filters_contain<R>(column: Column, min: Option<R>, max: Option<R>)
    ensures
        min matches Some(m) ==> bound_filters(column, min, max).contains(
            FilterView::AtLeast { column, bound: m },
        ),
        max matches Some(m) ==> bound_filters(column, min, max).contains(
            FilterView::AtMost { column, bound: m },
        ),
{
    let lo: Seq<FilterView<R>> = if min is Some {
        seq![FilterView::AtLeast { column, bound: min->0 }]
    } else {
        Seq::empty()
    };
    let hi: Seq<FilterView<R>> = if max is Some {
        seq![FilterView::AtMost { column, bound: max->0 }]
    } else {
        Seq::empty()
    };
    if min is Some {
        assert(lo[0] == FilterView::AtLeast { column, bound: min->0 });
        lemma_contains_concat(lo, hi, FilterView::AtLeast { column, bound: min->0 });
    }
    if max is Some {
        assert(hi[0] == FilterView::AtMost { column, bound: max->0 });
        lemma_contains_concat(lo, hi, FilterView::AtMost { column, bound: max->0 });
    }
}

proof fn lemma_int_bound_filters_contain<R>(column: Column, min: Option<i64>, max: Option<i64>)
    ensures
        min matches Some(m) ==> int_bound_filters::<R>(column, min, max).contains(
            FilterView::IntAtLeast { column, bound: m },
        ),
        max matches Some(m) ==> int_bound_filters::<R>(column, min, max).contains(
            FilterView::IntAtMost { column, bound: m },
        ),
{
    let lo: Seq<FilterView<R>> = if min is Some {
        seq![FilterView::IntAtLeast { column, bound: min->0 }]
    } else {
        Seq::empty()
    };
    let hi: Seq<FilterView<R>> = if max is Some {
        seq![FilterView::IntAtMost { column, bound: max->0 }]
    } else {
        Seq::empty()
    };
    if min is Some {
        assert(lo[0] == FilterView::<R>::IntAtLeast { column, bound: min->0 });
        lemma_contains_concat(lo, hi, FilterView::IntAtLeast { column, bound: min->0 });
    }
    if max is Some {
        assert(hi[0] == FilterView::<R>::IntAtMost { column, bound: max->0 });
        lemma_contains_concat(lo, hi, FilterView::IntAtMost { column, bound: max->0 });
    }
}

proof fn lemma_in_greeks<R>(g: GreeksFilter<R>, x: FilterView<R>)
    ensures
        optional_bound_filters(Column::Delta, delta_bounds(g.delta_range)).contains(x)
            || optional_bound_filters(Column::Gamma, gamma_bounds(g.gamma_range)).contains(x)
            || optional_bound_filters(Column::Theta, theta_bounds(g.theta_range)).contains(x)
            || optional_bound_filters(Column::Vega, vega_bounds(g.vega_range)).contains(x)
            || optional_bound_filters(Column::ImpliedVolatility, iv_bounds(g.iv_range)).contains(x)
            ==> greeks_filters(g).contains(x),
{
    let d = optional_bound_filters(Column::Delta, delta_bounds(g.delta_range));
    let ga = optional_bound_filters(Column::Gamma, gamma_bounds(g.gamma_range));
    let th = optional_bound_filters(Column::Theta, theta_bounds(g.theta_range));
    let ve = optional_bound_filters(Column::Vega, vega_bounds(g.vega_range));
    let iv = optional_bound_filters(Column::ImpliedVolatility, iv_bounds(g.iv_range));
    lemma_contains_concat(d, ga, x);
    lemma_contains_concat(d + ga, th, x);
    lemma_contains_concat(d + ga + th, ve, x);
    lemma_contains_concat(d + ga + th + ve, iv, x);
}

/// The minimum of a range that gives one.
spec fn range_min<R>(range: Option<(Option<R>, Option<R>)>) -> R {
    match range {
        Some((Some(m), _)) => m,
        _ => arbitrary(),
    }
}

/// The maximum of a range that gives one.
spec fn range_max<R>(range: Option<(Option<R>, Option<R>)>) -> R {
    match range {
        Some((_, Some(m))) => m,
        _ => arbitrary(),
    }
}

proof fn lemma_range_in_plan<R>(
    c: DataLoaderConfig<R>,
    column: Column,
    range: Option<(Option<R>, Option<R>)>,
)
    requires
        c.greeks_filter is Some,
        optional_bound_filters(column, range).contains(FilterView::AtLeast { column, bound: range_min(range) })
            ==> greeks_filters(c.greeks_filter->0).contains(FilterView::AtLeast { column, bound: range_min(range) }),
        optional_bound_filters(column, range).contains(FilterView::AtMost { column, bound: range_max(range) })
            ==> greeks_filters(c.greeks_filter->0).contains(FilterView::AtMost { column, bound: range_max(range) }),
    ensures
        range matches Some((Some(m), _)) ==> options_filters(c).contains(
            FilterView::AtLeast { column, bound: m },
        ),
        range matches Some((_, Some(m))) ==> options_filters(c).contains(
            FilterView::AtMost { column, bound: m },
        ),
{
    if let Some((min, max)) = range {
        lemma_bound_filters_contain(column, min, max);
        let base = selection_filters(c) + liquidity_filters(c);
        if min is Some {
            lemma_contains_concat(base, greeks_filters(c.greeks_filter->0), FilterView::AtLeast { column, bound: min->0 });
        }
        if max is Some {
            lemma_contains_concat(base, greeks_filters(c.greeks_filter->0), FilterView::AtMost { column, bound: max->0 });
        }
    }
}

proof fn lemma_selection_in_plan<R>(c: DataLoaderConfig<R>)
    ensures
        c.underlying_symbols@.len() > 0 ==> options_filters(c).contains(
            FilterView::IsIn { column: Column::Underlying, values: string_views(c.underlying_symbols@) },
        ),
        c.option_types matches Some(t) ==> (t@.len() > 0 ==> options_filters(c).contains(
            FilterView::IsIn { column: Column::OptionType, values: string_views(t@) },
        )),
        c.strike_range matches Some(r) ==> options_filters(c).contains(
            FilterView::Between { column: Column::Strike, min: r.min, max: r.max },
        ),
{
    let sel = selection_filters(c);
    let liq = liquidity_filters(c);
    let gr: Seq<FilterView<R>> = if c.greeks_filter is Some {
        greeks_filters(c.greeks_filter->0)
    } else {
        Seq::empty()
    };
    assert(options_filters(c) == sel + liq + gr);
    let u: Seq<FilterView<R>> = if c.underlying_symbols@.len() > 0 {
        seq![FilterView::IsIn { column: Column::Underlying, values: string_views(c.underlying_symbols@) }]
    } else {
        Seq::empty()
    };
    let t: Seq<FilterView<R>> = if c.option_types is Some && c.option_types->0@.len() > 0 {
        seq![FilterView::IsIn { column: Column::OptionType, values: string_views(c.option_types->0@) }]
    } else {
        Seq::empty()
    };
    let k: Seq<FilterView<R>> = if c.strike_range is Some {
        seq![
            FilterView::Between {
                column: Column::Strike,
                min: c.strike_range->0.min,
                max: c.strike_range->0.max,
            },
        ]
    } else {
        Seq::empty()
    };
    assert(sel == u + t + k);
    if c.underlying_symbols@.len() > 0 {
        let x = u[0];
        lemma_contains_concat(u, t, x);
        lemma_contains_concat(u + t, k, x);
        lemma_contains_concat(sel, liq, x);
        lemma_contains_concat(sel + liq, gr, x);
    }
    if c.option_types is Some && c.option_types->0@.len() > 0 {
        let x = t[0];
        lemma_contains_concat(u, t, x);
        lemma_contains_concat(u + t, k, x);
        lemma_contains_concat(sel, liq, x);
        lemma_contains_concat(sel + liq, gr, x);
    }
    if c.strike_range is Some {
        let x = k[0];
        lemma_contains_concat(u + t, k, x);
        lemma_contains_concat(sel, liq, x);
        lemma_contains_concat(sel + liq, gr, x);
    }
}

proof fn lemma_liquidity_in_plan<R>(c: DataLoaderConfig<R>)
    ensures
        c.volume_filter matches Some(v) ==> (v.min matches Some(m) ==> options_filters(c).contains(
            FilterView::IntAtLeast { column: Column::Volume, bound: m },
        )),
        c.volume_filter matches Some(v) ==> (v.max matches Some(m) ==> options_filters(c).contains(
            FilterView::IntAtMost { column: Column::Volume, bound: m },
        )),
        c.open_interest_filter matches Some(v) ==> (v.min matches Some(m) ==> options_filters(
            c,
        ).contains(FilterView::IntAtLeast { column: Column::OpenInterest, bound: m })),
        c.open_interest_filter matches Some(v) ==> (v.max matches Some(m) ==> options_filters(
            c,
        ).contains(FilterView::IntAtMost { column: Column::OpenInterest, bound: m })),
{
    let sel = selection_filters(c);
    let liq = liquidity_filters(c);
    let gr: Seq<FilterView<R>> = if c.greeks_filter is Some {
        greeks_filters(c.greeks_filter->0)
    } else {
        Seq::empty()
    };
    assert(options_filters(c) == sel + liq + gr);
    let vol: Seq<FilterView<R>> = if c.volume_filter is Some {
        int_bound_filters(Column::Volume, c.volume_filter->0.min, c.volume_filter->0.max)
    } else {
        Seq::empty()
    };
    let oi: Seq<FilterView<R>> = if c.open_interest_filter is Some {
        int_bound_filters(
            Column::OpenInterest,
            c.open_interest_filter->0.min,
            c.open_interest_filter->0.max,
        )
    } else {
        Seq::empty()
    };
    assert(liq == vol + oi);
    if let Some(v) = c.volume_filter {
        lemma_int_bound_filters_contain::<R>(Column::Volume, v.min, v.max);
        if v.min is Some {
            let x = FilterView::IntAtLeast { column: Column::Volume, bound: v.min->0 };
            lemma_contains_concat(vol, oi, x);
            lemma_contains_concat(sel, liq, x);
            lemma_contains_concat(sel + liq, gr, x);
        }
        if v.max is Some {
            let x = FilterView::IntAtMost { column: Column::Volume, bound: v.max->0 };
            lemma_contains_concat(vol, oi, x);
            lemma_contains_concat(sel, liq, x);
            lemma_contains_concat(sel + liq, gr, x);
        }
    }
    if let Some(v) = c.open_interest_filter {
        lemma_int_bound_filters_contain::<R>(Column::OpenInterest, v.min, v.max);
        if v.min is Some {
            let x = FilterView::IntAtLeast { column: Column::OpenInterest, bound: v.min->0 };
            lemma_contains_concat(vol, oi, x);
            lemma_contains_concat(sel, liq, x);
            lemma_contains_concat(sel + liq, gr, x);
        }
        if v.max is Some {
            let x = FilterView::IntAtMost { column: Column::OpenInterest, bound: v.max->0 };
            lemma_contains_concat(vol, oi, x);
            lemma_contains_concat(sel, liq, x);
            lemma_contains_concat(sel + liq, gr, x);
        }
    }
}

proof fn lemma_greeks_in_plan<R>(c: DataLoaderConfig<R>)
    ensures
        c.greeks_filter matches Some(g) ==> (delta_bounds(g.delta_range) matches Some((Some(m), _))
            ==> options_filters(c).contains(FilterView::AtLeast { column: Column::Delta, bound: m })),
        c.greeks_filter matches Some(g) ==> (delta_bounds(g.delta_range) matches Some((_, Some(m)))
            ==> options_filters(c).contains(FilterView::AtMost { column: Column::Delta, bound: m })),
        c.greeks_filter matches Some(g) ==> (gamma_bounds(g.gamma_range) matches Some((Some(m), _))
            ==> options_filters(c).contains(FilterView::AtLeast { column: Column::Gamma, bound: m })),
        c.greeks_filter matches Some(g) ==> (gamma_bounds(g.gamma_range) matches Some((_, Some(m)))
            ==> options_filters(c).contains(FilterView::AtMost { column: Column::Gamma, bound: m })),
        c.greeks_filter matches Some(g) ==> (theta_bounds(g.theta_range) matches Some((Some(m), _))
            ==> options_filters(c).contains(FilterView::AtLeast { column: Column::Theta, bound: m })),
        c.greeks_filter matches Some(g) ==> (theta_bounds(g.theta_range) matches Some((_, Some(m)))
            ==> options_filters(c).contains(FilterView::AtMost { column: Column::Theta, bound: m })),
        c.greeks_filter matches Some(g) ==> (vega_bounds(g.vega_range) matches Some((Some(m), _))
            ==> options_filters(c).contains(FilterView::AtLeast { column: Column::Vega, bound: m })),
        c.greeks_filter matches Some(g) ==> (vega_bounds(g.vega_range) matches Some((_, Some(m)))
            ==> options_filters(c).contains(FilterView::AtMost { column: Column::Vega, bound: m })),
        c.greeks_filter matches Some(g) ==> (iv_bounds(g.iv_range) matches Some((Some(m), _))
            ==> options_filters(c).contains(FilterView::AtLeast { column: Column::ImpliedVolatility, bound: m })),
        c.greeks_filter matches Some(g) ==> (iv_bounds(g.iv_range) matches Some((_, Some(m)))
            ==> options_filters(c).contains(FilterView::AtMost { column: Column::ImpliedVolatility, bound: m })),
{
    if let Some(g) = c.greeks_filter {
        lemma_in_greeks(g, FilterView::AtLeast { column: Column::Delta, bound: range_min(delta_bounds(g.delta_range)) });
        lemma_in_greeks(g, FilterView::AtMost { column: Column::Delta, bound: range_max(delta_bounds(g.delta_range)) });
        lemma_range_in_plan(c, Column::Delta, delta_bounds(g.delta_range));
        lemma_in_greeks(g, FilterView::AtLeast { column: Column::Gamma, bound: range_min(gamma_bounds(g.gamma_range)) });
        lemma_in_greeks(g, FilterView::AtMost { column: Column::Gamma, bound: range_max(gamma_bounds(g.gamma_range)) });
        lemma_range_in_plan(c, Column::Gamma, gamma_bounds(g.gamma_range));
        lemma_in_greeks(g, FilterView::AtLeast { column: Column::Theta, bound: range_min(theta_bounds(g.theta_range)) });
        lemma_in_greeks(g, FilterView::AtMost { column: Column::Theta, bound: range_max(theta_bounds(g.theta_range)) });
        lemma_range_in_plan(c, Column::Theta, theta_bounds(g.theta_range));
        lemma_in_greeks(g, FilterView::AtLeast { column: Column::Vega, bound: range_min(vega_bounds(g.vega_range)) });
        lemma_in_greeks(g, FilterView::AtMost { column: Column::Vega, bound: range_max(vega_bounds(g.vega_range)) });
        lemma_range_in_plan(c, Column::Vega, vega_bounds(g.vega_range));
        lemma_in_greeks(g, FilterView::AtLeast { column: Column::ImpliedVolatility, bound: range_min(iv_bounds(g.iv_range)) });
        lemma_in_greeks(g, FilterView::AtMost { column: Column::ImpliedVolatility, bound: range_max(iv_bounds(g.iv_range)) });
        lemma_range_in_plan(c, Column::ImpliedVolatility, iv_bounds(g.iv_range));
    }
}

/// Every bound the configuration gives becomes a condition of the options plan: the underlying
/// symbols and option types (when any are given), the strike range, each end of the volume and
/// open-interest ranges, and each end of every greek range.
pub proof fn law_every_configured_bound_is_filtered<R>(c: DataLoaderConfig<R>)
    ensures
        c.underlying_symbols@.len() > 0 ==> options_filters(c).contains(
            FilterView::IsIn { column: Column::Underlying, values: string_views(c.underlying_symbols@) },
        ),
        c.option_types matches Some(t) ==> (t@.len() > 0 ==> options_filters(c).contains(
            FilterView::IsIn { column: Column::OptionType, values: string_views(t@) },
        )),
        c.strike_range matches Some(r) ==> options_filters(c).contains(
            FilterView::Between { column: Column::Strike, min: r.min, max: r.max },
        ),
        c.volume_filter matches Some(v) ==> (v.min matches Some(m) ==> options_filters(c).contains(
            FilterView::IntAtLeast { column: Column::Volume, bound: m },
        )),
        c.volume_filter matches Some(v) ==> (v.max matches Some(m) ==> options_filters(c).contains(
            FilterView::IntAtMost { column: Column::Volume, bound: m },
        )),
        c.open_interest_filter matches Some(v) ==> (v.min matches Some(m) ==> options_filters(
            c,
        ).contains(FilterView::IntAtLeast { column: Column::OpenInterest, bound: m })),
        c.open_interest_filter matches Some(v) ==> (v.max matches Some(m) ==> options_filters(
            c,
        ).contains(FilterView::IntAtMost { column: Column::OpenInterest, bound: m })),
        c.greeks_filter matches Some(g) ==> (delta_bounds(g.delta_range) matches Some((Some(m), _))
            ==> options_filters(c).contains(FilterView::AtLeast { column: Column::Delta, bound: m })),
        c.greeks_filter matches Some(g) ==> (delta_bounds(g.delta_range) matches Some((_, Some(m)))
            ==> options_filters(c).contains(FilterView::AtMost { column: Column::Delta, bound: m })),
        c.greeks_filter matches Some(g) ==> (gamma_bounds(g.gamma_range) matches Some((Some(m), _))
            ==> options_filters(c).contains(FilterView::AtLeast { column: Column::Gamma, bound: m })),
        c.greeks_filter matches Some(g) ==> (gamma_bounds(g.gamma_range) matches Some((_, Some(m)))
            ==> options_filters(c).contains(FilterView::AtMost { column: Column::Gamma, bound: m })),
        c.greeks_filter matches Some(g) ==> (theta_bounds(g.theta_range) matches Some((Some(m), _))
            ==> options_filters(c).contains(FilterView::AtLeast { column: Column::Theta, bound: m })),
        c.greeks_filter matches Some(g) ==> (theta_bounds(g.theta_range) matches Some((_, Some(m)))
            ==> options_filters(c).contains(FilterView::AtMost { column: Column::Theta, bound: m })),
        c.greeks_filter matches Some(g) ==> (vega_bounds(g.vega_range) matches Some((Some(m), _))
            ==> options_filters(c).contains(FilterView::AtLeast { column: Column::Vega, bound: m })),
        c.greeks_filter matches Some(g) ==> (vega_bounds(g.vega_range) matches Some((_, Some(m)))
            ==> options_filters(c).contains(FilterView::AtMost { column: Column::Vega, bound: m })),
        c.greeks_filter matches Some(g) ==> (iv_bounds(g.iv_range) matches Some((Some(m), _))
            ==> options_filters(c).contains(FilterView::AtLeast { column: Column::ImpliedVolatility, bound: m })),
        c.greeks_filter matches Some(g) ==> (iv_bounds(g.iv_range) matches Some((_, Some(m)))
            ==> options_filters(c).contains(FilterView::AtMost { column: Column::ImpliedVolatility, bound: m })),
{
    lemma_selection_in_plan(c);
    lemma_liquidity_in_plan(c);
    lemma_greeks_in_plan(c);
}

/// The views of a plan.
pub open spec fn plan_view<R>(plan: Seq<RowFilter<R>>) -> Seq<FilterView<R>> {
    plan.map_values(|f: RowFilter<R>| filter_view(f))
}

/// A copy of a list of strings.
pub fn copy_strings(v: &Vec<String>) -> (r: Vec<String>)
    ensures
        string_views(r@) == string_views(v@),
{
    let mut r: Vec<String> = Vec::new();
    let mut i: usize = 0;
    while i < v.len()
        invariant
            i <= v@.len(),
            r@.len() == i,
            forall|j: int| 0 <= j < i ==> #[trigger] r@[j]@ == v@[j]@,
        decreases v@.len() - i,
    {
        r.push(v[i].clone());
        i = i + 1;
    }
    assert(string_views(r@) =~= string_views(v@));
    r
}

/// The view of a concatenation is the concatenation of the views.
proof fn lemma_plan_view_concat<R>(a: Seq<RowFilter<R>>, b: Seq<RowFilter<R>>)
    ensures
        plan_view(a + b) == plan_view(a) + plan_view(b),
{
    assert(plan_view(a + b) =~= plan_view(a) + plan_view(b));
}

/// `a` followed by `b`.
fn concat_plans<R>(a: Vec<RowFilter<R>>, b: Vec<RowFilter<R>>) -> (r: Vec<RowFilter<R>>)
    ensures
        plan_view(r@) == plan_view(a@) + plan_view(b@),
{
    let mut a = a;
    let mut b = b;
    let ghost (a0, b0) = (a@, b@);
    a.append(&mut b);
    proof {
        lemma_plan_view_concat(a0, b0);
    }
    a
}

/// The conditions of an integer range filter.
fn int_bound_plan<R>(column: Column, min: Option<i64>, max: Option<i64>) -> (plan: Vec<RowFilter<R>>)
    ensures
        plan_view(plan@) == int_bound_filters::<R>(column, min, max),
{
    let mut plan: Vec<RowFilter<R>> = Vec::new();
    if let Some(bound) = min {
        plan.push(RowFilter::IntAtLeast { column, bound });
    }
    if let Some(bound) = max {
        plan.push(RowFilter::IntAtMost { column, bound });
    }
    assert(plan_view(plan@) =~= int_bound_filters::<R>(column, min, max));
    plan
}

/// The conditions of a range filter that may be absent.
fn optional_bound_plan<R: Copy>(column: Column, range: Option<(Option<R>, Option<R>)>) -> (plan: Vec<
    RowFilter<R>,
>)
    ensures
        plan_view(plan@) == optional_bound_filters(column, range),
{
    let mut plan: Vec<RowFilter<R>> = Vec::new();
    if let Some((min, max)) = range {
        if let Some(bound) = min {
            plan.push(RowFilter::AtLeast { column, bound });
        }
        if let Some(bound) = max {
            plan.push(RowFilter::AtMost { column, bound });
        }
    }
    assert(plan_view(plan@) =~= optional_bound_filters(column, range));
    plan
}

/// The selection conditions of `c`.
fn selection_plan<R: Copy>(c: &DataLoaderConfig<R>) -> (plan: Vec<RowFilter<R>>)
    ensures
        plan_view(plan@) == selection_filters(*c),
{
    let mut plan: Vec<RowFilter<R>> = Vec::new();
    if c.underlying_symbols.len() > 0 {
        plan.push(RowFilter::IsIn { column: Column::Underlying, values: copy_strings(&c.underlying_symbols) });
    }
    let ghost p1 = plan_view(plan@);
    assert(p1 =~= (if c.underlying_symbols@.len() > 0 {
        seq![FilterView::IsIn { column: Column::Underlying, values: string_views(c.underlying_symbols@) }]
    } else {
        Seq::empty()
    }));
    if let Some(types) = &c.option_types {
        if types.len() > 0 {
            plan.push(RowFilter::IsIn { column: Column::OptionType, values: copy_strings(types) });
        }
    }
    let ghost p2 = plan_view(plan@);
    assert(p2 =~= p1 + (if c.option_types is Some && c.option_types->0@.len() > 0 {
        seq![FilterView::IsIn { column: Column::OptionType, values: string_views(c.option_types->0@) }]
    } else {
        Seq::empty()
    }));
    if let Some(range) = &c.strike_range {
        plan.push(RowFilter::Between { column: Column::Strike, min: range.min, max: range.max });
    }
    assert(plan_view(plan@) =~= selection_filters(*c));
    plan
}

/// The liquidity conditions of `c`.
fn liquidity_plan<R: Copy>(c: &DataLoaderConfig<R>) -> (plan: Vec<RowFilter<R>>)
    ensures
        plan_view(plan@) == liquidity_filters(*c),
{
    let volume = match c.volume_filter {
        Some(f) => int_bound_plan(Column::Volume, f.min, f.max),
        None => Vec::new(),
    };
    let open_interest = match c.open_interest_filter {
        Some(f) => int_bound_plan(Column::OpenInterest, f.min, f.max),
        None => Vec::new(),
    };
    proof {
        assert(plan_view(Seq::<RowFilter<R>>::empty()) =~= Seq::<FilterView<R>>::empty());
    }
    concat_plans(volume, open_interest)
}

/// The conditions of a greeks filter.
fn greeks_plan<R: Copy>(g: &GreeksFilter<R>) -> (plan: Vec<RowFilter<R>>)
    ensures
        plan_view(plan@) == greeks_filters(*g),
{
    let d = optional_bound_plan(Column::Delta, match g.delta_range {
        Some(r) => Some((r.min, r.max)),
        None => None,
    });
    let ga = optional_bound_plan(Column::Gamma, match g.gamma_range {
        Some(r) => Some((r.min, r.max)),
        None => None,
    });
    let t = optional_bound_plan(Column::Theta, match g.theta_range {
        Some(r) => Some((r.min, r.max)),
        None => None,
    });
    let v = optional_bound_plan(Column::Vega, match g.vega_range {
        Some(r) => Some((r.min, r.max)),
        None => None,
    });
    let iv = optional_bound_plan(Column::ImpliedVolatility, match g.iv_range {
        Some(r) => Some((r.min, r.max)),
        None => None,
    });
    let p = concat_plans(d, ga);
    let p = concat_plans(p, t);
    let p = concat_plans(p, v);
    concat_plans(p, iv)
}

/// Loads options and stocks data as its configuration says.
pub struct DataLoader<R> {
    pub config: DataLoaderConfig<R>,
}

impl<R: Copy> DataLoader<R> {
    /// A loader for `config`; it accepts every configuration.
    pub fn new(config: DataLoaderConfig<R>) -> (r: Result<Self, ConfigError>)
        ensures
            r matches Ok(l) && l.config == config,
    {
        Ok(DataLoader { config })
    }

    /// The conditions the options rows must meet, in the order they are applied.
    pub fn options_filters(&self) -> (plan: Vec<RowFilter<R>>)
        ensures
            plan_view(plan@) == options_filters(self.config),
    {
        let selection = selection_plan(&self.config);
        let liquidity = liquidity_plan(&self.config);
        let greeks = match &self.config.greeks_filter {
            Some(g) => greeks_plan(g),
            None => Vec::new(),
        };
        proof {
            assert(plan_view(Seq::<RowFilter<R>>::empty()) =~= Seq::<FilterView<R>>::empty());
        }
        let p = concat_plans(selection, liquidity);
        concat_plans(p, greeks)
    }

    /// The dates to keep, when the configuration limits them.
    pub fn date_filter(&self) -> (r: Option<(String, String)>)
        ensures
            match self.config.date_range {
                None => r is None,
                Some(d) => r matches Some(p) && p.0@ == d.start@ && p.1@ == d.end@,
            },
    {
        match &self.config.date_range {
            None => None,
            Some(d) => Some((d.start.clone(), d.end.clone())),
        }
    }
}

} // verus!
