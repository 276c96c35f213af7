//! osu! hit windows, narrowed by overall difficulty.
use vstd::prelude::*;

use crate::engine::timing::hit_window::{HitRule, HitWindow, OrderedHitWindows};

verus! {

/// osu!mania judgements, best first.
#[derive(Debug, Clone, Copy, PartialEq, Eq, Structural)]
pub enum OsuJudgement {
    Marvelous,
    Perfect,
    Great,
    Good,
    Bad,
    Miss,
}

/// Five ordered osu! windows.
pub type OsuHitWindows = OrderedHitWindows<OsuJudgement, 5>;

/// The symmetric window of a radius.
pub open spec fn radius_window(radius: int) -> HitWindow {
    HitWindow { early: (-radius) as i64, late: radius as i64 }
}

/// The rules for an overall difficulty given in tenths: a fixed 16 ms
/// marvelous window, then perfect, great, good and bad windows of 64, 97,
/// 127 and 151 ms, each narrowed by 3 ms per point of difficulty.
pub open spec fn osu_rules(od_x10: int) -> Seq<HitRule<OsuJudgement>> {
    let reduction = 300 * od_x10;
    seq![
        HitRule { window: radius_window(16_000), judgement: OsuJudgement::Marvelous },
        HitRule { window: radius_window(64_000 - reduction), judgement: OsuJudgement::Perfect },
        HitRule { window: radius_window(97_000 - reduction), judgement: OsuJudgement::Great },
        HitRule { window: radius_window(127_000 - reduction), judgement: OsuJudgement::Good },
        HitRule { window: radius_window(151_000 - reduction), judgement: OsuJudgement::Bad },
    ]
}

/// The windows of an overall difficulty given in tenths (OD 8.5 is 85);
/// later than the bad window is a miss.
pub fn create_osu_windows(od_x10: i64) -> (r: OsuHitWindows)
    requires
        -1_000_000_000_000 <= od_x10 <= 1_000_000_000_000,
    ensures
        r.rules@ == osu_rules(od_x10 as int),
        r.miss_judgement == OsuJudgement::Miss,
        r.miss_after == Some((151_000 - 300 * od_x10) as i64),
{
    let max_us: i64 = 16_000;
    let reduction_us = 300 * od_x10;
    let perf_us = 64_000 - reduction_us;
    let great_us = 97_000 - reduction_us;
    let good_us = 127_000 - reduction_us;
    let bad_us = 151_000 - reduction_us;
    let r = OrderedHitWindows {
        rules: [
            HitRule { window: HitWindow::symmetric(max_us), judgement: OsuJudgement::Marvelous },
            HitRule { window: HitWindow::symmetric(perf_us), judgement: OsuJudgement::Perfect },
            HitRule { window: HitWindow::symmetric(great_us), judgement: OsuJudgement::Great },
            HitRule { window: HitWindow::symmetric(good_us), judgement: OsuJudgement::Good },
            HitRule { window: HitWindow::symmetric(bad_us), judgement: OsuJudgement::Bad },
        ],
        miss_judgement: OsuJudgement::Miss,
        miss_after: Some(bad_us),
    };
    assert(r.rules@ =~= osu_rules(od_x10 as int));
    r
}

} // verus!
