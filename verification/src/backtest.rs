use vstd::prelude::*;

use crate::condor::collect_checked;
use crate::grid::{cartesian_product, lemma_product2};
use crate::rules::{DomainRules, TechnicalIndicatorRules};

verus! {

/// Which side of an allowed range a value fell out of, with the bound it broke.
#[derive(Debug, Clone, Copy, PartialEq, Eq)]
pub enum RangeViolation<T> {
    BelowMinimum { min: T },
    AboveMaximum { max: T },
}

/// A parameter value outside its allowed range.
#[derive(Debug, Clone)]
pub struct RangeError<T> {
    pub parameter: String,
    pub value: T,
    pub violation: RangeViolation<T>,
}

/// The bound that `value` breaks, the minimum being checked first; `None` when it breaks none.
pub open spec fn range_violation(value: u16, min: Option<u16>, max: Option<u16>) -> Option<
    RangeViolation<u16>,
> {
    if min is Some && value < min->0 {
        Some(RangeViolation::BelowMinimum { min: min->0 })
    } else if max is Some && value > max->0 {
        Some(RangeViolation::AboveMaximum { max: max->0 })
    } else {
        None
    }
}

/// Checks that `value` is at least `min` and at most `max`, a missing bound allowing anything.
pub fn validate_range(value: u16, min: Option<u16>, max: Option<u16>, param_name: &str) -> (r: Result<
    (),
    RangeError<u16>,
>)
    ensures
        r is Ok <==> range_violation(value, min, max) is None,
        r matches Err(e) ==> e.parameter@ == param_name@ && e.value == value && Some(e.violation)
            == range_violation(value, min, max),
{
    if let Some(min_val) = min {
        if value < min_val {
            return Err(
                RangeError {
                    parameter: param_name.to_owned(),
                    value,
                    violation: RangeViolation::BelowMinimum { min: min_val },
                },
            );
        }
    }
    if let Some(max_val) = max {
        if value > max_val {
            return Err(
                RangeError {
                    parameter: param_name.to_owned(),
                    value,
                    violation: RangeViolation::AboveMaximum { max: max_val },
                },
            );
        }
    }
    Ok(())
}

/// How a backtest runs its parameter grid.
#[derive(Debug, Clone, Copy, PartialEq, Eq)]
pub enum ComputeMode {
    CPU { threads: usize },
    GPU { cuda_device: i32 },
}

/// The look-back period of a moving-average indicator, checked against the domain rules.
#[derive(Debug, Clone, Copy, PartialEq, Eq)]
pub struct Period(u16);

impl Period {
    /// The number of prices in the look-back window.
    pub closed spec fn spec_value(self) -> u16 {
        self.0
    }

    /// The period `value` if the technical-indicator rules allow it.
    pub fn new<R>(value: u16, rules: &DomainRules<R>) -> (r: Result<Period, RangeError<u16>>)
        ensures
            r is Ok <==> period_allowed(value, rules.technical_indicators),
            r matches Ok(p) ==> p.spec_value() == value,
            r matches Err(e) ==> e.parameter@ == "Period"@ && e.value == value && Some(e.violation)
                == range_violation(
                value,
                rules.technical_indicators.period_min,
                rules.technical_indicators.period_max,
            ),
    {
        let tech_rules = &rules.technical_indicators;
        match validate_range(value, tech_rules.period_min, tech_rules.period_max, "Period") {
            Ok(()) => Ok(Period(value)),
            Err(e) => Err(e),
        }
    }

    pub fn value(&self) -> (v: u16)
        ensures
            v == self.spec_value(),
    {
        self.0
    }
}

/// The rules allow `value` as a period.
pub open spec fn period_allowed<R>(value: u16, rules: TechnicalIndicatorRules<R>) -> bool {
    range_violation(value, rules.period_min, rules.period_max) is None
}

/// Runs backtests in the chosen compute mode.
pub struct BacktestEngine {
    compute_mode: ComputeMode,
}

impl BacktestEngine {
    /// The mode the engine was created with.
    pub closed spec fn mode(&self) -> ComputeMode {
        self.compute_mode
    }

    pub fn new(compute_mode: ComputeMode) -> (r: Self)
        ensures
            r.mode() == compute_mode,
    {
        BacktestEngine { compute_mode }
    }

    /// The mode the engine runs in.
    pub fn compute_mode(&self) -> (m: ComputeMode)
        ensures
            m == self.mode(),
    {
        self.compute_mode
    }
    /// How a backtest runs its grid: each parameter set in turn, in grid order, on the CPU, or the
    /// whole grid at once on the GPU.
    pub fn route(&self) -> (r: BacktestRoute)
        ensures
            r == route_of(self.mode()),
    {
        match self.compute_mode {
            ComputeMode::CPU { threads: _ } => BacktestRoute::EachParameterOnCpu,
            ComputeMode::GPU { cuda_device: _ } => BacktestRoute::WholeGridOnGpu,
        }
    }
}

/// The two ways a backtest runs its parameter grid.
#[derive(Debug, Clone, Copy, PartialEq, Eq)]
pub enum BacktestRoute {
    EachParameterOnCpu,
    WholeGridOnGpu,
}

/// The route a compute mode takes.
pub open spec fn route_of(mode: ComputeMode) -> BacktestRoute {
    match mode {
        ComputeMode::CPU { .. } => BacktestRoute::EachParameterOnCpu,
        ComputeMode::GPU { .. } => BacktestRoute::WholeGridOnGpu,
    }
}

/// The route depends on the kind of compute mode alone: a CPU mode runs each parameter set on
/// the CPU and a GPU mode hands the whole grid to the GPU, whatever thread count or device they
/// hold; an engine keeps the mode it was made with.
pub proof fn law_route_follows_mode_kind(a: ComputeMode, b: ComputeMode)
    ensures
        route_of(a) == BacktestRoute::EachParameterOnCpu <==> a is CPU,
        route_of(a) == BacktestRoute::WholeGridOnGpu <==> a is GPU,
        (a is CPU <==> b is CPU) ==> route_of(a) == route_of(b),
{
}


/// A grid of strategy parameters that passed validation.
pub struct ValidatedConfig<P> {
    params: Vec<P>,
}

impl<P: Copy> ValidatedConfig<P> {
    /// The validated parameter sets, in grid order.
    pub closed spec fn spec_params(&self) -> Seq<P> {
        self.params@
    }

    /// Wraps a grid of parameter sets that were validated.
    pub fn from_validated(params: Vec<P>) -> (r: Self)
        ensures
            r.spec_params() == params@,
    {
        ValidatedConfig { params }
    }

    /// Every parameter set of the grid, in order.
    pub fn generate_param_grid(&self) -> (grid: Vec<P>)
        ensures
            grid@ == self.spec_params(),
    {
        let mut grid: Vec<P> = Vec::new();
        let mut i: usize = 0;
        while i < self.params.len()
            invariant
                i <= self.params@.len(),
                grid@ == self.params@.take(i as int),
            decreases self.params@.len() - i,
        {
            grid.push(self.params[i]);
            i = i + 1;
            assert(grid@ =~= self.params@.take(i as int));
        }
        assert(self.params@.take(i as int) =~= self.params@);
        grid
    }
}

/// The lists of periods and standard-deviation factors a Bollinger Bands grid is built from.
#[derive(Debug, Clone)]
pub struct StrategyConfigBuilder<R> {
    pub periods: Option<Vec<u16>>,
    pub std_dev_factors: Option<Vec<R>>,
}

impl<R> StrategyConfigBuilder<R> {
    /// Neither list set yet.
    pub fn new() -> (r: Self)
        ensures
            r.periods is None,
            r.std_dev_factors is None,
    {
        StrategyConfigBuilder { periods: None, std_dev_factors: None }
    }

    /// Sets the periods, keeping the factors.
    pub fn periods(self, periods: Vec<u16>) -> (r: Self)
        ensures
            r.periods == Some(periods),
            r.std_dev_factors == self.std_dev_factors,
    {
        StrategyConfigBuilder { periods: Some(periods), std_dev_factors: self.std_dev_factors }
    }

    /// Sets the standard-deviation factors, keeping the periods.
    pub fn std_dev_factors(self, factors: Vec<R>) -> (r: Self)
        ensures
            r.std_dev_factors == Some(factors),
            r.periods == self.periods,
    {
        StrategyConfigBuilder { periods: self.periods, std_dev_factors: Some(factors) }
    }
}

/// Why a Bollinger Bands grid was refused.
#[derive(Debug, Clone)]
pub enum GridError<E> {
    PeriodsNotSet,
    StdDevFactorsNotSet,
    InvalidPeriod(RangeError<u16>),
    InvalidStdDevFactor(E),
}

/// Position of the first failed check of `checks`, if any.
pub open spec fn first_failed<S, E>(checks: Seq<Result<S, E>>) -> Option<int> {
    if exists|j: int| 0 <= j < checks.len() && #[trigger] checks[j] is Err {
        Some(
            choose|j: int|
                0 <= j < checks.len() && #[trigger] checks[j] is Err && forall|k: int|
                    0 <= k < j ==> #[trigger] checks[k] is Ok,
        )
    } else {
        None
    }
}

/// Position of the first period that the rules do not allow, if any.
pub open spec fn first_bad_period<R>(periods: Seq<u16>, rules: TechnicalIndicatorRules<R>) -> Option<
    int,
> {
    if exists|i: int| 0 <= i < periods.len() && !period_allowed(#[trigger] periods[i], rules) {
        Some(
            choose|i: int|
                0 <= i < periods.len() && !period_allowed(#[trigger] periods[i], rules) && forall|
                    k: int,
                |
                    0 <= k < i ==> period_allowed(#[trigger] periods[k], rules),
        )
    } else {
        None
    }
}

/// The value a successful check carries.
pub open spec fn checked_value<S, E>(c: Result<S, E>) -> S {
    c->Ok_0
}

/// Which check the grid validation fails on: the period and factor of every pair are checked in
/// grid order (periods slowest), the period of a pair before its factor. `None` when all pass.
pub enum GridFailure {
    Period(int),
    Factor(int),
}

pub open spec fn grid_failure<R, S, E>(
    periods: Seq<u16>,
    checks: Seq<Result<S, E>>,
    rules: TechnicalIndicatorRules<R>,
) -> Option<GridFailure> {
    if periods.len() == 0 || checks.len() == 0 {
        None
    } else if !period_allowed(periods[0], rules) {
        Some(GridFailure::Period(0))
    } else if first_failed(checks) is Some {
        Some(GridFailure::Factor(first_failed(checks)->0))
    } else if first_bad_period(periods, rules) is Some {
        Some(GridFailure::Period(first_bad_period(periods, rules)->0))
    } else {
        None
    }
}

proof fn lemma_first_failed<S, E>(checks: Seq<Result<S, E>>, j: int)
    requires
        0 <= j < checks.len(),
        checks[j] is Err,
        forall|k: int| 0 <= k < j ==> #[trigger] checks[k] is Ok,
    ensures
        first_failed(checks) == Some(j),
{
    let c = choose|c: int|
        0 <= c < checks.len() && #[trigger] checks[c] is Err && forall|k: int|
            0 <= k < c ==> #[trigger] checks[k] is Ok;
    assert(checks[j] is Err);
    if c < j {
        assert(checks[c] is Ok);
    }
    if j < c {
        assert(checks[j] is Ok);
    }
}

proof fn lemma_first_bad_period<R>(periods: Seq<u16>, rules: TechnicalIndicatorRules<R>, i: int)
    requires
        0 <= i < periods.len(),
        !period_allowed(periods[i], rules),
        forall|k: int| 0 <= k < i ==> period_allowed(#[trigger] periods[k], rules),
    ensures
        first_bad_period(periods, rules) == Some(i),
{
    let c = choose|c: int|
        0 <= c < periods.len() && !period_allowed(#[trigger] periods[c], rules) && forall|k: int|
            0 <= k < c ==> period_allowed(#[trigger] periods[k], rules);
    assert(!period_allowed(periods[i], rules));
    if c < i {
        assert(period_allowed(periods[c], rules));
    }
    if i < c {
        assert(period_allowed(periods[i], rules));
    }
}

/// `r` is what validating the grid of `periods` and checked factors yields: the first failing
/// check in grid order, or every pair when none fails.
pub open spec fn grid_outcome<R, S, E>(
    periods: Seq<u16>,
    checks: Seq<Result<S, E>>,
    rs: TechnicalIndicatorRules<R>,
    r: Result<Vec<(Period, S)>, GridError<E>>,
) -> bool {
    match grid_failure(periods, checks, rs) {
        None => r matches Ok(grid) && grid@.len() == periods.len() * checks.len() && forall|
            i: int,
            j: int,
        |
            0 <= i < periods.len() && 0 <= j < checks.len() ==> {
                let pair = #[trigger] grid@[i * checks.len() + j];
                &&& pair.0.spec_value() == periods[i]
                &&& pair.1 == checked_value(checks[j])
            },
        Some(GridFailure::Period(i)) => r matches Err(GridError::InvalidPeriod(e)) && e.value
            == periods[i] && Some(e.violation) == range_violation(
            periods[i],
            rs.period_min,
            rs.period_max,
        ),
        Some(GridFailure::Factor(j)) => r matches Err(GridError::InvalidStdDevFactor(e))
            && checks[j] == Err::<S, E>(e),
    }
}

/// Builds the Bollinger Bands grid: every period paired with every standard-deviation factor,
/// periods varying slowest. `factor_checks[j]` is the outcome of checking the `j`th factor of the
/// builder against the rules; the pairs carry the checked factors.
pub fn validate_bollinger_grid<R, S: Copy, E>(
    builder: &StrategyConfigBuilder<R>,
    rules: &DomainRules<R>,
    factor_checks: Vec<Result<S, E>>,
) -> (r: Result<Vec<(Period, S)>, GridError<E>>)
    requires
        builder.std_dev_factors matches Some(f) ==> f@.len() == factor_checks@.len(),
    ensures
        builder.periods is None ==> r matches Err(GridError::PeriodsNotSet),
        builder.periods is Some && builder.std_dev_factors is None ==> r matches Err(
            GridError::StdDevFactorsNotSet,
        ),
        builder.periods is Some && builder.std_dev_factors is Some ==> grid_outcome(
            builder.periods->0@,
            factor_checks@,
            rules.technical_indicators,
            r,
        ),
{
    let periods = match &builder.periods {
        Some(p) => p,
        None => return Err(GridError::PeriodsNotSet),
    };
    if builder.std_dev_factors.is_none() {
        return Err(GridError::StdDevFactorsNotSet);
    }
    let ghost rs = rules.technical_indicators;
    let ghost checks = factor_checks@;
    if periods.len() == 0 || factor_checks.len() == 0 {
        // No pair to check.
        let empty: Vec<(Period, S)> = Vec::new();
        return Ok(empty);
    }
    // The first pair checks the first period, then the first factor; the factors are all
    // checked while pairing them with the first period, before any later period.
    let first = match Period::new(periods[0], rules) {
        Ok(p) => p,
        Err(e) => return Err(GridError::InvalidPeriod(e)),
    };
    let values = match collect_checked(factor_checks) {
        Ok(v) => v,
        Err(e) => {
            proof {
                let j = choose|j: int|
                    0 <= j < checks.len() && checks[j] == Err::<S, E>(e) && forall|k: int|
                        0 <= k < j ==> #[trigger] checks[k] is Ok;
                lemma_first_failed(checks, j);
            }
            return Err(GridError::InvalidStdDevFactor(e));
        },
    };
    let mut checked: Vec<Period> = Vec::new();
    checked.push(first);
    let mut i: usize = 1;
    while i < periods.len()
        invariant
            1 <= i <= periods@.len(),
            checked@.len() == i,
            forall|k: int| 0 <= k < i ==> #[trigger] checked@[k].spec_value() == periods@[k],
            forall|k: int| 0 <= k < i ==> period_allowed(#[trigger] periods@[k], rs),
            rs == rules.technical_indicators,
            builder.periods is Some,
            builder.periods->0@ == periods@,
            builder.std_dev_factors is Some,
            checks.len() > 0,
            checks == factor_checks@,
            values@.len() == checks.len(),
            forall|k: int| 0 <= k < checks.len() ==> checks[k] == Ok::<S, E>(#[trigger] values@[k]),
        decreases periods@.len() - i,
    {
        match Period::new(periods[i], rules) {
            Ok(p) => checked.push(p),
            Err(e) => {
                proof {
                    lemma_first_bad_period(periods@, rs, i as int);
                    assert(period_allowed(periods@[0], rs));
                    assert forall|k: int| 0 <= k < checks.len() implies !(#[trigger] checks[k] is Err) by {
                        assert(checks[k] == Ok::<S, E>(values@[k]));
                    }
                    assert(first_failed(checks) is None);
                }
                return Err(GridError::InvalidPeriod(e));
            },
        }
        i = i + 1;
    }
    let grid = cartesian_product(&checked, &values);
    proof {
        lemma_product2(checked@, values@);
        assert forall|k: int| 0 <= k < checks.len() implies !(#[trigger] checks[k] is Err) by {
            assert(checks[k] == Ok::<S, E>(values@[k]));
        }
        assert(first_failed(checks) is None);
        assert(first_bad_period(periods@, rs) is None);
        assert forall|a: int, b: int|
            0 <= a < periods@.len() && 0 <= b < checks.len() implies {
            let pair = #[trigger] grid@[a * checks.len() + b];
            &&& pair.0.spec_value() == periods@[a]
            &&& pair.1 == checked_value(checks[b])
        } by {
            assert(grid@[a * checks.len() + b] == (checked@[a], values@[b]));
            assert(checks[b] == Ok::<S, E>(values@[b]));
        }
    }
    Ok(grid)
}

} // verus!
