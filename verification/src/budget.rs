//! Token, cost and time caps of a workflow, and what it has used of them.

use vstd::prelude::*;

verus! {

/// Per-workflow cost and time budget.
///
/// All three caps are optional. A `None` field means "no cap". If every field
/// is `None`, the budget imposes no constraint.
#[derive(Debug, Clone, Copy)]
pub struct Budget {
    pub max_tokens: Option<u64>,
    /// Millionths of a dollar.
    pub max_usd_micros: Option<u64>,
    pub max_wallclock_ms: Option<u64>,
}

/// Running total of what the workflow has consumed in this process.
///
/// A process restart resets usage to zero: it is not journaled.
#[derive(Debug, Clone, Copy)]
pub struct BudgetUsage {
    pub tokens: u64,
    pub usd_micros: u64,
    pub wallclock_ms: u64,
}

/// Whether `used` is above the cap. Reaching the cap exactly is allowed.
pub open spec fn over(cap: Option<u64>, used: u64) -> bool {
    cap matches Some(limit) && used > limit
}

/// The name of the first cap that `usage` is above, in the order tokens, usd,
/// wallclock.
pub open spec fn breach(usage: BudgetUsage, budget: Budget) -> Option<Seq<char>> {
    if over(budget.max_tokens, usage.tokens) {
        Some("tokens"@)
    } else if over(budget.max_usd_micros, usage.usd_micros) {
        Some("usd"@)
    } else if over(budget.max_wallclock_ms, usage.wallclock_ms) {
        Some("wallclock"@)
    } else {
        None
    }
}

impl Budget {
    /// A budget without caps.
    pub fn unlimited() -> (budget: Self)
        ensures
            budget == (Budget { max_tokens: None, max_usd_micros: None, max_wallclock_ms: None }),
    {
        Budget { max_tokens: None, max_usd_micros: None, max_wallclock_ms: None }
    }

    pub fn with_max_tokens(self, n: u64) -> (budget: Self)
        ensures
            budget == (Budget { max_tokens: Some(n), ..self }),
    {
        Budget { max_tokens: Some(n), ..self }
    }

    pub fn with_max_usd_micros(self, n: u64) -> (budget: Self)
        ensures
            budget == (Budget { max_usd_micros: Some(n), ..self }),
    {
        Budget { max_usd_micros: Some(n), ..self }
    }

    pub fn with_max_wallclock_ms(self, n: u64) -> (budget: Self)
        ensures
            budget == (Budget { max_wallclock_ms: Some(n), ..self }),
    {
        Budget { max_wallclock_ms: Some(n), ..self }
    }
}

impl Default for Budget {
    fn default() -> (budget: Self)
        ensures
            budget == (Budget { max_tokens: None, max_usd_micros: None, max_wallclock_ms: None }),
    {
        Budget::unlimited()
    }
}

impl BudgetUsage {
    /// Nothing used yet.
    pub fn zero() -> (usage: Self)
        ensures
            usage == (BudgetUsage { tokens: 0, usd_micros: 0, wallclock_ms: 0 }),
    {
        BudgetUsage { tokens: 0, usd_micros: 0, wallclock_ms: 0 }
    }

    /// The first field name (tokens, usd, wallclock) that exceeds the given
    /// budget, or `None` if the usage fits.
    pub fn exceeds(&self, budget: &Budget) -> (field: Option<&'static str>)
        ensures
            match breach(*self, *budget) {
                Some(name) => field matches Some(f) && f@ == name,
                None => field is None,
            },
            field is Some <==> {
                ||| budget.max_tokens is Some && self.tokens > budget.max_tokens->0
                ||| budget.max_usd_micros is Some && self.usd_micros > budget.max_usd_micros->0
                ||| budget.max_wallclock_ms is Some && self.wallclock_ms
                    > budget.max_wallclock_ms->0
            },
    {
        if let Some(cap) = budget.max_tokens {
            if self.tokens > cap {
                return Some("tokens");
            }
        }
        if let Some(cap) = budget.max_usd_micros {
            if self.usd_micros > cap {
                return Some("usd");
            }
        }
        if let Some(cap) = budget.max_wallclock_ms {
            if self.wallclock_ms > cap {
                return Some("wallclock");
            }
        }
        None
    }
}

impl Default for BudgetUsage {
    fn default() -> (usage: Self)
        ensures
            usage == (BudgetUsage { tokens: 0, usd_micros: 0, wallclock_ms: 0 }),
    {
        BudgetUsage::zero()
    }
}

/// A budget without caps is never exceeded.
pub proof fn law_no_caps_no_breach(usage: BudgetUsage, budget: Budget)
    requires
        budget.max_tokens is None,
        budget.max_usd_micros is None,
        budget.max_wallclock_ms is None,
    ensures
        breach(usage, budget) is None,
{
}

/// Usage only grows, so a budget that is exceeded stays exceeded.
pub proof fn law_breach_is_permanent(before: BudgetUsage, after: BudgetUsage, budget: Budget)
    requires
        before.tokens <= after.tokens,
        before.usd_micros <= after.usd_micros,
        before.wallclock_ms <= after.wallclock_ms,
        breach(before, budget) is Some,
    ensures
        breach(after, budget) is Some,
{
}

/// A budget is exceeded exactly where some cap is set and the usage is above
/// it, each cap on its own; and what is named is the first such cap in the order
/// tokens, usd, wallclock.
pub proof fn law_each_cap_counts_on_its_own(usage: BudgetUsage, budget: Budget)
    ensures
        breach(usage, budget) is Some <==> {
            ||| budget.max_tokens is Some && usage.tokens > budget.max_tokens->0
            ||| budget.max_usd_micros is Some && usage.usd_micros > budget.max_usd_micros->0
            ||| budget.max_wallclock_ms is Some && usage.wallclock_ms > budget.max_wallclock_ms->0
        },
        breach(usage, budget) == Some("tokens"@) <== budget.max_tokens is Some && usage.tokens
            > budget.max_tokens->0,
        breach(usage, budget) == Some("usd"@) <== {
            &&& budget.max_usd_micros is Some && usage.usd_micros > budget.max_usd_micros->0
            &&& budget.max_tokens is None || usage.tokens <= budget.max_tokens->0
        },
        breach(usage, budget) == Some("wallclock"@) <== {
            &&& budget.max_wallclock_ms is Some && usage.wallclock_ms > budget.max_wallclock_ms->0
            &&& budget.max_tokens is None || usage.tokens <= budget.max_tokens->0
            &&& budget.max_usd_micros is None || usage.usd_micros <= budget.max_usd_micros->0
        },
{
}

/// Lifting one cap lifts no other: what is exceeded without a cap is exceeded
/// with it.
pub proof fn law_a_further_cap_hides_no_breach(usage: BudgetUsage, budget: Budget, cap: u64)
    requires
        breach(usage, budget) is Some,
    ensures
        budget.max_tokens is None ==> breach(
            usage,
            (Budget { max_tokens: Some(cap), ..budget }),
        ) is Some,
        budget.max_usd_micros is None ==> breach(
            usage,
            (Budget { max_usd_micros: Some(cap), ..budget }),
        ) is Some,
        budget.max_wallclock_ms is None ==> breach(
            usage,
            (Budget { max_wallclock_ms: Some(cap), ..budget }),
        ) is Some,
{
}

} // verus!
