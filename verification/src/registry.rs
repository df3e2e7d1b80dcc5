use vstd::prelude::*;
use vstd::string::*;

use crate::errors::{AppError, AppResult};
use crate::ma_crossover::{
    spec_build_ok, MaCrossoverBuilder, MaCrossoverParams, MaCrossoverSnapshot, MaCrossoverStrategy,
};

verus! {

/// An explicit mapping from strategy identifier to its constructor,
/// populated once at process start and passed by reference to whatever
/// composes the engine.
pub struct StrategyRegistry {
    pub ids: Vec<String>,
}

impl StrategyRegistry {
    /// Whether a strategy identifier is registered.
    pub open spec fn spec_contains(&self, id: Seq<char>) -> bool {
        exists|i: int| 0 <= i < self.ids@.len() && (#[trigger] self.ids@[i])@ == id
    }

    pub fn contains(&self, id: &String) -> (r: bool)
        ensures
            r == self.spec_contains(id@),
    {
        let mut i: usize = 0;
        while i < self.ids.len()
            invariant
                i <= self.ids@.len(),
                forall|j: int| 0 <= j < i ==> (#[trigger] self.ids@[j])@ != id@,
            decreases self.ids@.len() - i,
        {
            if self.ids[i] == *id {
                return true;
            }
            i = i + 1;
        }
        false
    }
}

/// The registry holding every built-in strategy: the moving-average
/// crossover.
pub fn register_builtin_strategies() -> (r: StrategyRegistry)
    ensures
        r.ids@.len() == 1,
        r.ids@[0]@ == "ma_crossover"@,
        r.spec_contains("ma_crossover"@),
{
    let mut ids: Vec<String> = Vec::new();
    ids.push(String::from_str("ma_crossover"));
    let r = StrategyRegistry { ids };
    proof {
        assert((r.ids@[0])@ == "ma_crossover"@);
    }
    r
}

/// Builds the strategy registered under `id` from its parameters and an
/// optional saved snapshot; an unregistered identifier is a configuration
/// error.
pub fn build(
    registry: &StrategyRegistry,
    id: &String,
    params: MaCrossoverParams,
    saved: Option<&MaCrossoverSnapshot>,
) -> (r: AppResult<MaCrossoverStrategy>)
    requires
        params.long_window <= 0x7FFF_FFFF,
        params.slippage_bps <= 10_000,
        params.max_position >= 0,
    ensures
        r is Ok <==> registry.spec_contains(id@) && id@ == "ma_crossover"@
            && params.short_window < params.long_window,
        r matches Err(e) ==> e is Config,
        r matches Ok(s) ==> spec_build_ok(params, saved, s),
{
    if !registry.contains(id) {
        return Err(AppError::Config(String::from_str("strategy not registered")));
    }
    let known = String::from_str("ma_crossover");
    if *id == known {
        MaCrossoverBuilder::build(params, saved)
    } else {
        Err(AppError::Config(String::from_str("strategy has no builder")))
    }
}

} // verus!
