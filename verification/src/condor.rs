use vstd::prelude::*;

use crate::grid::{cartesian_product3, product3};

verus! {

/// The allowed ranges of the iron condor parameters; `R` is the real-number type of the wing
/// width and stop-loss bounds, which are checked where those values are computed with.
#[derive(Debug, Clone, Copy)]
pub struct DomainRules<R> {
    pub entry_time_min: u16,
    pub entry_time_max: u16,
    pub wing_width_min: R,
    pub wing_width_max: R,
    pub stop_loss_min: R,
    pub stop_loss_max: R,
}

/// An entry time outside the allowed range, with the range.
#[derive(Debug, Clone, Copy, PartialEq, Eq)]
pub struct InvalidEntryTime {
    pub value: u16,
    pub min: u16,
    pub max: u16,
}

/// Minutes after the open at which a position is entered, within the allowed range.
#[derive(Debug, Clone, Copy, PartialEq, Eq)]
pub struct EntryTimeMinutes(u16);

/// The rules allow `value` as an entry time.
pub open spec fn entry_time_allowed<R>(value: u16, rules: DomainRules<R>) -> bool {
    rules.entry_time_min <= value <= rules.entry_time_max
}

impl EntryTimeMinutes {
    pub closed spec fn spec_value(self) -> u16 {
        self.0
    }

    /// The entry time `value` if it lies in the allowed range (both ends included).
    pub fn new<R>(value: u16, rules: &DomainRules<R>) -> (r: Result<Self, InvalidEntryTime>)
        ensures
            r is Ok <==> entry_time_allowed(value, *rules),
            r matches Ok(t) ==> t.spec_value() == value,
            r matches Err(e) ==> e == (InvalidEntryTime {
                value,
                min: rules.entry_time_min,
                max: rules.entry_time_max,
            }),
    {
        if rules.entry_time_min <= value && value <= rules.entry_time_max {
            Ok(EntryTimeMinutes(value))
        } else {
            Err(
                InvalidEntryTime {
                    value,
                    min: rules.entry_time_min,
                    max: rules.entry_time_max,
                },
            )
        }
    }

    pub fn value(&self) -> (v: u16)
        ensures
            v == self.spec_value(),
    {
        self.0
    }
}

/// Every check of `checks` passed.
pub open spec fn all_passed<T, E>(checks: Seq<Result<T, E>>) -> bool {
    forall|j: int| 0 <= j < checks.len() ==> #[trigger] checks[j] is Ok
}

/// `r` collects `checks`: every value in order when all passed, else the error of the first
/// failed check.
pub open spec fn collected<T, E>(checks: Seq<Result<T, E>>, r: Result<Vec<T>, E>) -> bool {
    match r {
        Ok(values) => all_passed(checks) && values@.len() == checks.len() && forall|j: int|
            0 <= j < checks.len() ==> checks[j] == Ok::<T, E>(#[trigger] values@[j]),
        Err(e) => exists|j: int|
            0 <= j < checks.len() && checks[j] == Err::<T, E>(e) && forall|k: int|
                0 <= k < j ==> #[trigger] checks[k] is Ok,
    }
}

/// Collects checked values: all of them in order when every check passed, else the first error.
pub fn collect_checked<T, E>(checks: Vec<Result<T, E>>) -> (r: Result<Vec<T>, E>)
    ensures
        collected(checks@, r),
        r is Ok <==> all_passed(checks@),
{
    let ghost input = checks@;
    let mut values: Vec<T> = Vec::new();
    let mut rest = checks;
    let mut taken: usize = 0;
    let ghost n = input.len();
    let len = rest.len();
    assert(n == len);
    while rest.len() > 0
        invariant
            taken + rest@.len() == n,
            n == input.len(),
            input == checks@,
            n == len,
            rest@ == input.skip(taken as int),
            values@.len() == taken,
            forall|j: int| 0 <= j < taken ==> input[j] == Ok::<T, E>(#[trigger] values@[j]),
        decreases rest@.len(),
    {
        let c = rest.remove(0);
        proof {
            assert(c == input[taken as int]);
        }
        match c {
            Ok(v) => {
                values.push(v);
                taken = taken + 1;
                proof {
                    assert(rest@ =~= input.skip(taken as int));
                }
            },
            Err(e) => {
                proof {
                    assert(input[taken as int] == Err::<T, E>(e));
                    assert forall|k: int| 0 <= k < taken implies #[trigger] input[k] is Ok by {
                        assert(input[k] == Ok::<T, E>(values@[k]));
                    }
                    let j = taken as int;
                    assert(0 <= j < input.len() && input[j] == Err::<T, E>(e) && forall|k: int|
                        0 <= k < j ==> #[trigger] input[k] is Ok);
                    assert(!(input[j] is Ok));
                    assert(!all_passed(input));
                }
                return Err(e);
            },
        }
    }
    proof {
        assert forall|j: int| 0 <= j < input.len() implies #[trigger] input[j] is Ok by {
            assert(input[j] == Ok::<T, E>(values@[j]));
        }
    }
    Ok(values)
}

/// Why an iron condor configuration was refused; `E` is the error of a wing-width or stop-loss
/// check.
#[derive(Debug, Clone)]
pub enum IronCondorConfigError<E> {
    EntryTime(InvalidEntryTime),
    WingWidth(E),
    StopLoss(E),
}

/// The lists of checked parameters an iron condor backtest sweeps.
#[derive(Debug, Clone)]
pub struct IronCondorConfig<W, S> {
    pub entry_times: Vec<EntryTimeMinutes>,
    pub wing_widths: Vec<W>,
    pub stop_losses: Vec<S>,
}

/// Every entry time of `values` is allowed by `rules`.
pub open spec fn all_entry_times_allowed<R>(values: Seq<u16>, rules: DomainRules<R>) -> bool {
    forall|i: int| 0 <= i < values.len() ==> entry_time_allowed(#[trigger] values[i], rules)
}

/// `i` is the position of the first entry time that `rules` do not allow.
pub open spec fn first_bad_entry_time<R>(values: Seq<u16>, rules: DomainRules<R>, i: int) -> bool {
    &&& 0 <= i < values.len()
    &&& !entry_time_allowed(values[i], rules)
    &&& forall|k: int| 0 <= k < i ==> entry_time_allowed(#[trigger] values[k], rules)
}

impl<W, S> IronCondorConfig<W, S> {
    /// Checks the raw entry times against `rules` and takes the outcomes of checking the wing
    /// widths and stop losses; refuses the configuration at the first failure, entry times
    /// first, then wing widths, then stop losses.
    pub fn from_raw<R, E>(
        entry_times: &Vec<u16>,
        rules: &DomainRules<R>,
        wing_width_checks: Vec<Result<W, E>>,
        stop_loss_checks: Vec<Result<S, E>>,
    ) -> (r: Result<Self, IronCondorConfigError<E>>)
        ensures
            match r {
                Ok(cfg) => {
                    &&& all_entry_times_allowed(entry_times@, *rules)
                    &&& cfg.entry_times@.len() == entry_times@.len()
                    &&& forall|i: int|
                        0 <= i < entry_times@.len() ==> #[trigger] cfg.entry_times@[i].spec_value()
                            == entry_times@[i]
                    &&& collected(wing_width_checks@, Ok::<Vec<W>, E>(cfg.wing_widths))
                    &&& collected(stop_loss_checks@, Ok::<Vec<S>, E>(cfg.stop_losses))
                },
                Err(IronCondorConfigError::EntryTime(e)) => exists|i: int|
                    first_bad_entry_time(entry_times@, *rules, i) && e == (InvalidEntryTime {
                        value: entry_times@[i],
                        min: rules.entry_time_min,
                        max: rules.entry_time_max,
                    }),
                Err(IronCondorConfigError::WingWidth(e)) => all_entry_times_allowed(
                    entry_times@,
                    *rules,
                ) && collected(wing_width_checks@, Err::<Vec<W>, E>(e)),
                Err(IronCondorConfigError::StopLoss(e)) => all_entry_times_allowed(
                    entry_times@,
                    *rules,
                ) && all_passed(wing_width_checks@) && collected(
                    stop_loss_checks@,
                    Err::<Vec<S>, E>(e),
                ),
            },
    {
        let mut times: Vec<EntryTimeMinutes> = Vec::new();
        let mut i: usize = 0;
        while i < entry_times.len()
            invariant
                i <= entry_times@.len(),
                times@.len() == i,
                forall|k: int| 0 <= k < i ==> entry_time_allowed(#[trigger] entry_times@[k], *rules),
                forall|k: int| 0 <= k < i ==> #[trigger] times@[k].spec_value() == entry_times@[k],
            decreases entry_times@.len() - i,
        {
            match EntryTimeMinutes::new(entry_times[i], rules) {
                Ok(t) => times.push(t),
                Err(e) => {
                    proof {
                        assert(first_bad_entry_time(entry_times@, *rules, i as int));
                    }
                    return Err(IronCondorConfigError::EntryTime(e));
                },
            }
            i = i + 1;
        }
        let wing_widths = match collect_checked(wing_width_checks) {
            Ok(v) => v,
            Err(e) => return Err(IronCondorConfigError::WingWidth(e)),
        };
        let stop_losses = match collect_checked(stop_loss_checks) {
            Ok(v) => v,
            Err(e) => return Err(IronCondorConfigError::StopLoss(e)),
        };
        Ok(IronCondorConfig { entry_times: times, wing_widths, stop_losses })
    }
}

impl<W: Copy, S: Copy> IronCondorConfig<W, S> {
    /// Every (entry time, wing width, stop loss) combination, entry times varying slowest and
    /// stop losses fastest.
    pub fn generate_param_grid(&self) -> (grid: Vec<(EntryTimeMinutes, W, S)>)
        ensures
            grid@ == product3(self.entry_times@, self.wing_widths@, self.stop_losses@),
    {
        cartesian_product3(&self.entry_times, &self.wing_widths, &self.stop_losses)
    }
}

} // verus!
