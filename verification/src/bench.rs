//! The benchmark runners: averages and the latency ceiling.

use vstd::prelude::*;

use crate::config::AiDifficulty;
use crate::text;
use crate::text::eq_ignore_case;

verus! {

/// The difficulty that a benchmark is to run at: a label in whatever case, and
/// medium for any other text. White space counts, and the strongest level is
/// not offered.
pub open spec fn bench_level(label: Seq<char>) -> AiDifficulty {
    if text::same_but_case(label, "VeryEasy"@) {
        AiDifficulty::VeryEasy
    } else if text::same_but_case(label, "Easy"@) {
        AiDifficulty::Easy
    } else if text::same_but_case(label, "Hard"@) {
        AiDifficulty::Hard
    } else if text::same_but_case(label, "VeryHard"@) {
        AiDifficulty::VeryHard
    } else {
        AiDifficulty::Medium
    }
}

/// The difficulty that a benchmark is to run at.
pub fn bench_difficulty(label: &str) -> (r: AiDifficulty)
    ensures
        r == bench_level(label@),
{
    if eq_ignore_case(label, "VeryEasy") {
        AiDifficulty::VeryEasy
    } else if eq_ignore_case(label, "Easy") {
        AiDifficulty::Easy
    } else if eq_ignore_case(label, "Hard") {
        AiDifficulty::Hard
    } else if eq_ignore_case(label, "VeryHard") {
        AiDifficulty::VeryHard
    } else {
        AiDifficulty::Medium
    }
}

/// The time per item of a measurement, nothing where there was no item.
pub fn per_item(total_nanos: u128, items: usize) -> (r: u128)
    ensures
        r == if items == 0 {
            0
        } else {
            total_nanos as int / items as int
        },
{
    if items == 0 {
        0
    } else {
        total_nanos / items as u128
    }
}

/// Whether a mean latency is low enough: there is no ceiling, or the mean
/// does not exceed it.
pub fn within_ceiling(mean_ms: u128, ceiling_ms: Option<u128>) -> (r: bool)
    ensures
        r == (ceiling_ms matches Some(c) ==> mean_ms <= c),
{
    match ceiling_ms {
        Some(c) => mean_ms <= c,
        None => true,
    }
}

/// A benchmark runs at the level whose label it is given, in whatever case, and
/// at medium for any other text.
pub proof fn law_bench_levels_are_named(label: &str, r: AiDifficulty)
    requires
        call_ensures(bench_difficulty, (label,), r),
    ensures
        text::same_but_case(label@, "VeryEasy"@) ==> r is VeryEasy,
        text::same_but_case(label@, "Easy"@) ==> r is Easy,
        text::same_but_case(label@, "Medium"@) ==> r is Medium,
        text::same_but_case(label@, "Hard"@) ==> r is Hard,
        text::same_but_case(label@, "VeryHard"@) ==> r is VeryHard,
        !(r is CEDH),
        r is VeryEasy ==> text::same_but_case(label@, "VeryEasy"@),
        r is Easy ==> text::same_but_case(label@, "Easy"@),
        r is Hard ==> text::same_but_case(label@, "Hard"@),
        r is VeryHard ==> text::same_but_case(label@, "VeryHard"@),
{
    reveal_strlit("VeryEasy");
    reveal_strlit("Easy");
    reveal_strlit("Medium");
    reveal_strlit("Hard");
    reveal_strlit("VeryHard");
    if text::same_but_case(label@, "Hard"@) {
        assert(text::lowered(label@[0]) == text::lowered("Hard"@[0]));
        if text::same_but_case(label@, "Easy"@) {
            assert(text::lowered(label@[0]) == text::lowered("Easy"@[0]));
        }
    }
    if text::same_but_case(label@, "VeryHard"@) {
        assert(text::lowered(label@[4]) == text::lowered("VeryHard"@[4]));
        if text::same_but_case(label@, "VeryEasy"@) {
            assert(text::lowered(label@[4]) == text::lowered("VeryEasy"@[4]));
        }
    }
}

/// The time per item, taken for all items, is the total but for less than one
/// nanosecond each; no items take no time.
pub proof fn law_time_is_shared_out(total_nanos: u128, items: usize, r: u128)
    requires
        call_ensures(per_item, (total_nanos, items), r),
    ensures
        items == 0 ==> r == 0,
        items > 0 ==> r * items <= total_nanos < (r + 1) * items,
{
    if items > 0 {
        let (t, n, q) = (total_nanos as int, items as int, r as int);
        assert(q * n <= t < (q + 1) * n) by (nonlinear_arith)
            requires
                q == t / n,
                n > 0,
        ;
    }
}

/// A mean is too slow exactly where there is a ceiling and it lies above it.
pub proof fn law_ceiling_is_exceeded_above_it(mean_ms: u128, ceiling_ms: Option<u128>, r: bool)
    requires
        call_ensures(within_ceiling, (mean_ms, ceiling_ms), r),
    ensures
        ceiling_ms is None ==> r,
        ceiling_ms matches Some(c) ==> (r <==> mean_ms <= c),
{
}

} // verus!
