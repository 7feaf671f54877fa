use vstd::prelude::*;

verus! {

/// Kernel selector for the Black-Scholes option pricing model.
pub const BLACK_SCHOLES_KERNEL_INDEX: i32 = 0;

/// Kernel selector for the iron condor strategy.
pub const IRON_CONDOR_KERNEL_INDEX: i32 = 0;

/// Kernel selector for the iron butterfly strategy.
pub const IRON_BUTTERFLY_KERNEL_INDEX: i32 = 1;

/// Option pricing models understood by the GPU kernels.
#[derive(Debug, Clone, Copy, PartialEq, Eq)]
pub enum PricingModel {
    BlackScholes,
}

impl PricingModel {
    /// The integer flag that selects this model inside a kernel.
    pub open spec fn kernel_flag(self) -> i32 {
        match self {
            PricingModel::BlackScholes => BLACK_SCHOLES_KERNEL_INDEX,
        }
    }

    pub fn to_kernel_flag(self) -> (flag: i32)
        ensures
            flag == self.kernel_flag(),
    {
        match self {
            PricingModel::BlackScholes => BLACK_SCHOLES_KERNEL_INDEX,
        }
    }
}

/// Option strategies that have a GPU kernel.
#[derive(Debug, Clone, Copy, PartialEq, Eq)]
pub enum StrategyType {
    IronCondor,
    IronButterfly,
}

impl StrategyType {
    /// The integer flag that selects this strategy inside a kernel.
    pub open spec fn kernel_flag(self) -> i32 {
        match self {
            StrategyType::IronCondor => IRON_CONDOR_KERNEL_INDEX,
            StrategyType::IronButterfly => IRON_BUTTERFLY_KERNEL_INDEX,
        }
    }

    pub fn to_kernel_flag(self) -> (flag: i32)
        ensures
            flag == self.kernel_flag(),
    {
        match self {
            StrategyType::IronCondor => IRON_CONDOR_KERNEL_INDEX,
            StrategyType::IronButterfly => IRON_BUTTERFLY_KERNEL_INDEX,
        }
    }
}

} // verus!
