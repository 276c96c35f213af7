use lepton::engine::timing::{
    EtternaHitWindows, EtternaJudgement, GhHitWindows, GhJudgement, HitWindow, HitWindows,
    OsuHitWindows, OsuJudgement,
};

#[test]
fn timing_test_hit_window_symmetric() {
    let window = HitWindow::symmetric(10_000);
    assert_eq!(window.early, -10_000);
    assert_eq!(window.late, 10_000);
    assert_eq!(window.width(), 20_000);

    assert!(window.contains(0));
    assert!(window.contains(-10_000));
    assert!(window.contains(10_000));
    assert!(!window.contains(-10_001));
    assert!(!window.contains(10_001));
}

#[test]
fn timing_test_hit_window_asymmetric() {
    let window = HitWindow::new(-5_000, 10_000);
    assert_eq!(window.early, -5_000);
    assert_eq!(window.late, 10_000);
    assert_eq!(window.width(), 15_000);

    assert!(window.contains(0));
    assert!(window.contains(-5_000));
    assert!(window.contains(10_000));
    assert!(!window.contains(-5_001));
    assert!(!window.contains(10_001));
}

#[test]
fn test_osu_judgement() {
    let windows = OsuHitWindows {
        max: HitWindow::symmetric(16_000),
        great: HitWindow::symmetric(40_000),
        good: HitWindow::symmetric(73_000),
        ok: HitWindow::symmetric(103_000),
        meh: HitWindow::symmetric(127_000),
    };

    assert_eq!(windows.judge(0), Some(OsuJudgement::Max));
    assert_eq!(windows.judge(16_000), Some(OsuJudgement::Max));
    assert_eq!(windows.judge(-16_000), Some(OsuJudgement::Max));

    assert_eq!(windows.judge(16_001), Some(OsuJudgement::Great));
    assert_eq!(windows.judge(40_000), Some(OsuJudgement::Great));
    assert_eq!(windows.judge(-40_000), Some(OsuJudgement::Great));

    assert_eq!(windows.judge(40_001), Some(OsuJudgement::Good));
    assert_eq!(windows.judge(73_000), Some(OsuJudgement::Good));

    assert_eq!(windows.judge(73_001), Some(OsuJudgement::Okay));
    assert_eq!(windows.judge(-103_000), Some(OsuJudgement::Okay));

    assert_eq!(windows.judge(103_001), Some(OsuJudgement::Meh));
    assert_eq!(windows.judge(127_000), Some(OsuJudgement::Meh));

    assert_eq!(windows.judge(127_001), Some(OsuJudgement::Miss));
    assert_eq!(windows.judge(500_000), Some(OsuJudgement::Miss));

    assert_eq!(windows.judge(-127_001), None);
    assert_eq!(windows.judge(-500_000), None);
}

#[test]
fn test_etterna_judgement() {
    let windows = EtternaHitWindows {
        marvelous: HitWindow::symmetric(22_500),
        perfect: HitWindow::symmetric(45_000),
        great: HitWindow::symmetric(90_000),
        good: HitWindow::symmetric(135_000),
        bad: HitWindow::symmetric(180_000),
        boo: HitWindow::new(-180_000, 225_000),
    };

    assert_eq!(windows.judge(22_500), Some(EtternaJudgement::Marvelous));
    assert_eq!(windows.judge(-22_500), Some(EtternaJudgement::Marvelous));

    assert_eq!(windows.judge(22_501), Some(EtternaJudgement::Perfect));
    assert_eq!(windows.judge(-45_000), Some(EtternaJudgement::Perfect));

    assert_eq!(windows.judge(90_000), Some(EtternaJudgement::Great));

    assert_eq!(windows.judge(-135_000), Some(EtternaJudgement::Good));

    assert_eq!(windows.judge(180_000), Some(EtternaJudgement::Bad));
    assert_eq!(windows.judge(-180_000), Some(EtternaJudgement::Bad));

    assert_eq!(windows.judge(180_001), Some(EtternaJudgement::Boo));
    assert_eq!(windows.judge(225_000), Some(EtternaJudgement::Boo));

    assert_eq!(windows.judge(-180_001), None);

    assert_eq!(windows.judge(225_001), Some(EtternaJudgement::Miss));
}

#[test]
fn timing_test_gh_judgement() {
    let windows = GhHitWindows {
        hit: HitWindow::symmetric(100_000),
    };

    assert_eq!(windows.judge(0), Some(GhJudgement::Hit));
    assert_eq!(windows.judge(100_000), Some(GhJudgement::Hit));
    assert_eq!(windows.judge(-100_000), Some(GhJudgement::Hit));

    assert_eq!(windows.judge(100_001), Some(GhJudgement::Miss));

    assert_eq!(windows.judge(-100_001), None);
}

#[test]
fn width_of_extreme_window() {
    let window = HitWindow::new(i32::MIN / 2, i32::MAX / 2);
    assert_eq!(window.width(), i32::MAX / 2 - i32::MIN / 2);
    assert!(window.contains(0));
}
