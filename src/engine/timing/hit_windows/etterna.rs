//! Etterna hit windows, scaled by judge level.
use vstd::prelude::*;

use crate::engine::timing::hit_window::{HitRule, HitWindow, OrderedHitWindows};

verus! {

/// Etterna judgements, best first.
#[derive(Debug, Clone, Copy, PartialEq, Eq, Structural)]
pub enum EtternaJudgement {
    Marvelous,
    Perfect,
    Great,
    Good,
    Bad,
    Boo,
    Miss,
}

/// Six ordered Etterna windows.
pub type EtternaHitWindows = OrderedHitWindows<EtternaJudgement, 6>;

/// Division rounding toward zero, as integer `/` does.
pub open spec fn trunc_div(a: int, b: int) -> int {
    if a >= 0 {
        a / b
    } else {
        -((-a) / b)
    }
}

/// The window scale of a judge level, in hundredths: 20 at J9, otherwise
/// `100 - (J - 4) * 100 / 6`, so J4 is 100.
pub open spec fn etterna_scale_x100(judge_level: int) -> int {
    if judge_level == 9 {
        20
    } else {
        100 - trunc_div((judge_level - 4) * 100, 6)
    }
}

/// A base radius scaled by hundredths.
pub open spec fn scaled(base: int, scale_x100: int) -> int {
    trunc_div(base * scale_x100, 100)
}

/// The symmetric window of a radius.
pub open spec fn symmetric_window(radius: int) -> HitWindow {
    HitWindow { early: (-radius) as i64, late: radius as i64 }
}

/// The bad radius never goes below 180 ms.
pub open spec fn etterna_bad_radius(scale_x100: int) -> int {
    if scaled(180_000, scale_x100) < 180_000 {
        180_000
    } else {
        scaled(180_000, scale_x100)
    }
}

/// The rules for a judge level: marvelous, perfect, great, good and bad
/// windows scaled from 22.5, 45, 90, 135 and 180 ms, then a boo window from
/// -180 ms to 225 ms.
pub open spec fn etterna_rules(judge_level: int) -> Seq<HitRule<EtternaJudgement>> {
    let s = etterna_scale_x100(judge_level);
    seq![
        HitRule { window: symmetric_window(scaled(22_500, s)), judgement: EtternaJudgement::Marvelous },
        HitRule { window: symmetric_window(scaled(45_000, s)), judgement: EtternaJudgement::Perfect },
        HitRule { window: symmetric_window(scaled(90_000, s)), judgement: EtternaJudgement::Great },
        HitRule { window: symmetric_window(scaled(135_000, s)), judgement: EtternaJudgement::Good },
        HitRule { window: symmetric_window(etterna_bad_radius(s)), judgement: EtternaJudgement::Bad },
        HitRule {
            window: HitWindow { early: -180_000i64, late: 225_000i64 },
            judgement: EtternaJudgement::Boo,
        },
    ]
}

/// Division of `a` by a positive `b`, rounding toward zero.
fn div_toward_zero(a: i64, b: i64) -> (r: i64)
    requires
        b > 0,
        a != i64::MIN,
    ensures
        r == trunc_div(a as int, b as int),
{
    if a >= 0 {
        a / b
    } else {
        -((-a) / b)
    }
}

/// The windows of an Etterna judge level (J4 is the standard).
pub fn create_etterna_windows(judge_level: i64) -> (r: EtternaHitWindows)
    requires
        -1_000_000_000_000 <= judge_level <= 1_000_000_000_000,
    ensures
        r.rules@ == etterna_rules(judge_level as int),
        r.miss_judgement == EtternaJudgement::Miss,
        r.miss_after == Some(225_000i64),
{
    let scale_x100: i64 = if judge_level == 9 {
        20
    } else {
        100 - div_toward_zero((judge_level - 4) * 100, 6)
    };
    assert(-17 * 1_000_000_000_000 <= scale_x100 <= 17 * 1_000_000_000_000);
    let marv = div_toward_zero(22_500 * scale_x100, 100);
    let perf = div_toward_zero(45_000 * scale_x100, 100);
    let great = div_toward_zero(90_000 * scale_x100, 100);
    let good = div_toward_zero(135_000 * scale_x100, 100);
    let mut bad_calculated = div_toward_zero(180_000 * scale_x100, 100);
    if bad_calculated < 180_000 {
        bad_calculated = 180_000;
    }
    let r = OrderedHitWindows {
        rules: [
            HitRule { window: HitWindow::symmetric(marv), judgement: EtternaJudgement::Marvelous },
            HitRule { window: HitWindow::symmetric(perf), judgement: EtternaJudgement::Perfect },
            HitRule { window: HitWindow::symmetric(great), judgement: EtternaJudgement::Great },
            HitRule { window: HitWindow::symmetric(good), judgement: EtternaJudgement::Good },
            HitRule { window: HitWindow::symmetric(bad_calculated), judgement: EtternaJudgement::Bad },
            HitRule { window: HitWindow::new(-180_000, 225_000), judgement: EtternaJudgement::Boo },
        ],
        miss_judgement: EtternaJudgement::Miss,
        miss_after: Some(225_000),
    };
    assert(r.rules@ =~= etterna_rules(judge_level as int));
    r
}

impl Default for OrderedHitWindows<EtternaJudgement, 6> {
    /// The standard J4 windows.
    fn default() -> (r: Self)
        ensures
            r.rules@ == etterna_rules(4),
            r.miss_judgement == EtternaJudgement::Miss,
            r.miss_after == Some(225_000i64),
    {
        create_etterna_windows(4)
    }
}

} // verus!
