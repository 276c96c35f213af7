//! Guitar Hero hit windows.
use vstd::prelude::*;

use crate::engine::timing::hit_window::{HitRule, HitWindow, OrderedHitWindows};

verus! {

/// Guitar Hero judgements.
#[derive(Debug, Clone, Copy, PartialEq, Eq, Structural)]
pub enum GhJudgement {
    Hit,
    Miss,
}

/// One Guitar Hero window.
pub type GhHitWindows = OrderedHitWindows<GhJudgement, 1>;

/// A hit window of `window_ms` milliseconds either side; later is a miss.
pub fn create_gh_windows(window_ms: i64) -> (r: GhHitWindows)
    requires
        i64::MIN < window_ms * 1000 <= i64::MAX,
    ensures
        r.rules@ == seq![
            HitRule {
                window: HitWindow { early: (-window_ms * 1000) as i64, late: (window_ms * 1000) as i64 },
                judgement: GhJudgement::Hit,
            },
        ],
        r.miss_judgement == GhJudgement::Miss,
        r.miss_after == Some((window_ms * 1000) as i64),
{
    let window_us = window_ms * 1000;
    let r = OrderedHitWindows {
        rules: [HitRule { window: HitWindow::symmetric(window_us), judgement: GhJudgement::Hit }],
        miss_judgement: GhJudgement::Miss,
        miss_after: Some(window_us),
    };
    assert(r.rules@ =~= seq![
        HitRule {
            window: HitWindow { early: (-window_ms * 1000) as i64, late: (window_ms * 1000) as i64 },
            judgement: GhJudgement::Hit,
        },
    ]);
    r
}

impl Default for OrderedHitWindows<GhJudgement, 1> {
    /// A 100 ms window either side.
    fn default() -> (r: Self)
        ensures
            r.rules@ == seq![
                HitRule {
                    window: HitWindow { early: -100_000i64, late: 100_000i64 },
                    judgement: GhJudgement::Hit,
                },
            ],
            r.miss_judgement == GhJudgement::Miss,
            r.miss_after == Some(100_000i64),
    {
        create_gh_windows(100)
    }
}

} // verus!
