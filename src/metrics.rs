//! Token and timing counters of a run, and how partial updates merge into them.

use vstd::prelude::*;

verus! {

/// Counters reported by a worker for one run.
#[derive(Debug, Clone, Copy, PartialEq, Eq, Structural, Default)]
pub struct RunMetrics {
    pub prompt_tokens: u32,
    pub completion_tokens: u32,
    pub total_tokens: u32,
    pub first_token_ms: Option<u64>,
    pub llm_duration_ms: Option<u64>,
    pub execution_duration_ms: Option<u64>,
    pub end_to_end_ms: Option<u64>,
}

impl RunMetrics {
    /// All counters zero, all timings absent.
    pub open spec fn default_spec() -> RunMetrics {
        RunMetrics {
            prompt_tokens: 0,
            completion_tokens: 0,
            total_tokens: 0,
            first_token_ms: None,
            llm_duration_ms: None,
            execution_duration_ms: None,
            end_to_end_ms: None,
        }
    }
}

/// A partial update of the token counters; absent fields keep their value.
#[derive(Debug, Clone, Copy, PartialEq, Eq, Structural)]
pub struct TokenUsagePatch {
    pub prompt_tokens: Option<u32>,
    pub completion_tokens: Option<u32>,
    pub total_tokens: Option<u32>,
}

/// A partial update of the timing counters; absent fields keep their value.
#[derive(Debug, Clone, Copy, PartialEq, Eq, Structural)]
pub struct TimingPatch {
    pub first_token_ms: Option<u64>,
    pub llm_duration_ms: Option<u64>,
    pub execution_duration_ms: Option<u64>,
    pub end_to_end_ms: Option<u64>,
}

/// `a + b`, clamped to `u32::MAX`.
pub open spec fn saturating_sum(a: u32, b: u32) -> u32 {
    if a as int + b as int > u32::MAX as int {
        u32::MAX
    } else {
        (a + b) as u32
    }
}

pub open spec fn patched<T>(old: Option<T>, new: Option<T>) -> Option<T> {
    if new is Some {
        new
    } else {
        old
    }
}

/// Field-by-field meaning of applying a token patch.
pub open spec fn apply_usage(base: RunMetrics, u: TokenUsagePatch) -> RunMetrics {
    let p = match u.prompt_tokens {
        Some(v) => v,
        None => base.prompt_tokens,
    };
    let c = match u.completion_tokens {
        Some(v) => v,
        None => base.completion_tokens,
    };
    let t = match u.total_tokens {
        Some(v) => v,
        None => saturating_sum(p, c),
    };
    RunMetrics { prompt_tokens: p, completion_tokens: c, total_tokens: t, ..base }
}

/// Field-by-field meaning of applying a timing patch.
pub open spec fn apply_timing(base: RunMetrics, t: TimingPatch) -> RunMetrics {
    RunMetrics {
        first_token_ms: patched(base.first_token_ms, t.first_token_ms),
        llm_duration_ms: patched(base.llm_duration_ms, t.llm_duration_ms),
        execution_duration_ms: patched(base.execution_duration_ms, t.execution_duration_ms),
        end_to_end_ms: patched(base.end_to_end_ms, t.end_to_end_ms),
        ..base
    }
}

pub open spec fn merged_metrics(
    base: RunMetrics,
    usage: Option<TokenUsagePatch>,
    timing: Option<TimingPatch>,
) -> RunMetrics {
    let after_usage = match usage {
        Some(u) => apply_usage(base, u),
        None => base,
    };
    match timing {
        Some(t) => apply_timing(after_usage, t),
        None => after_usage,
    }
}

/// Applies optional token and timing patches to a run's counters. When a token
/// patch is given without a total, the total becomes the saturating sum of the
/// (patched) prompt and completion counts.
pub fn merge_metrics(
    base: RunMetrics,
    usage_patch: Option<TokenUsagePatch>,
    timing_patch: Option<TimingPatch>,
) -> (r: RunMetrics)
    ensures
        r == merged_metrics(base, usage_patch, timing_patch),
{
    let mut merged = base;
    if let Some(usage) = usage_patch {
        if let Some(v) = usage.prompt_tokens {
            merged.prompt_tokens = v;
        }
        if let Some(v) = usage.completion_tokens {
            merged.completion_tokens = v;
        }
        merged.total_tokens = match usage.total_tokens {
            Some(v) => v,
            None => merged.prompt_tokens.saturating_add(merged.completion_tokens),
        };
    }
    if let Some(timing) = timing_patch {
        if timing.first_token_ms.is_some() {
            merged.first_token_ms = timing.first_token_ms;
        }
        if timing.llm_duration_ms.is_some() {
            merged.llm_duration_ms = timing.llm_duration_ms;
        }
        if timing.execution_duration_ms.is_some() {
            merged.execution_duration_ms = timing.execution_duration_ms;
        }
        if timing.end_to_end_ms.is_some() {
            merged.end_to_end_ms = timing.end_to_end_ms;
        }
    }
    merged
}

/// After any update, a run's total token count is the total that the update set,
/// or, when it set none, the saturating sum of prompt and completion counts; an
/// update without token counters leaves the total as it was.
pub proof fn lemma_total_tokens_after_update(
    base: RunMetrics,
    usage: Option<TokenUsagePatch>,
    timing: Option<TimingPatch>,
)
    ensures
        ({
            let m = merged_metrics(base, usage, timing);
            match usage {
                Some(u) => match u.total_tokens {
                    Some(t) => m.total_tokens == t,
                    None => m.total_tokens == saturating_sum(m.prompt_tokens, m.completion_tokens),
                },
                None => m.total_tokens == base.total_tokens,
            }
        }),
{
}

} // verus!
