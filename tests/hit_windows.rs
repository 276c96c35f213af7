use lepton::engine::timing::hit_window::{HitRule, HitWindow, HitWindows, OrderedHitWindows};
use lepton::engine::timing::hit_windows::etterna::{
    create_etterna_windows, EtternaHitWindows, EtternaJudgement,
};
use lepton::engine::timing::hit_windows::guitar_hero::{create_gh_windows, GhHitWindows, GhJudgement};
use lepton::engine::timing::hit_windows::osu::{create_osu_windows, OsuJudgement};

#[test]
fn hit_window_test_hit_window_symmetric() {
    let window = HitWindow::symmetric(10_000);
    assert_eq!(window.early, -10_000);
    assert_eq!(window.late, 10_000);
    assert_eq!(window.width(), 20_000);

    assert!(window.contains(0));
    assert!(window.contains(-10_000));
    assert!(window.contains(10_000));
    assert!(!window.contains(-10_001));
    assert!(!window.contains(10_001));
}

#[test]
fn hit_window_test_hit_window_asymmetric() {
    let window = HitWindow::new(-5_000, 10_000);
    assert_eq!(window.early, -5_000);
    assert_eq!(window.late, 10_000);
    assert_eq!(window.width(), 15_000);

    assert!(window.contains(0));
    assert!(window.contains(-5_000));
    assert!(window.contains(10_000));
    assert!(!window.contains(-5_001));
    assert!(!window.contains(10_001));
}

#[test]
fn test_etterna_judgement_j4() {
    let windows = create_etterna_windows(4);

    assert_eq!(windows.judge(22_500), Some(EtternaJudgement::Marvelous));
    assert_eq!(windows.judge(-22_500), Some(EtternaJudgement::Marvelous));

    assert_eq!(windows.judge(22_501), Some(EtternaJudgement::Perfect));
    assert_eq!(windows.judge(-45_000), Some(EtternaJudgement::Perfect));

    assert_eq!(windows.judge(90_000), Some(EtternaJudgement::Great));

    assert_eq!(windows.judge(-135_000), Some(EtternaJudgement::Good));

    assert_eq!(windows.judge(180_000), Some(EtternaJudgement::Bad));
    assert_eq!(windows.judge(-180_000), Some(EtternaJudgement::Bad));

    assert_eq!(windows.judge(180_001), Some(EtternaJudgement::Boo));
    assert_eq!(windows.judge(225_000), Some(EtternaJudgement::Boo));

    assert_eq!(windows.judge(-180_001), None);

    assert_eq!(windows.judge(225_001), Some(EtternaJudgement::Miss));
}

#[test]
fn guitar_hero_test_gh_judgement() {
    let windows = create_gh_windows(100);

    assert_eq!(windows.judge(0), Some(GhJudgement::Hit));
    assert_eq!(windows.judge(100_000), Some(GhJudgement::Hit));
    assert_eq!(windows.judge(-100_000), Some(GhJudgement::Hit));

    assert_eq!(windows.judge(100_001), Some(GhJudgement::Miss));

    assert_eq!(windows.judge(-100_001), None);
}

#[test]
fn test_osu_judgement_base() {
    let windows = create_osu_windows(0);

    assert_eq!(windows.judge(0), Some(OsuJudgement::Marvelous));
    assert_eq!(windows.judge(16_000), Some(OsuJudgement::Marvelous));
    assert_eq!(windows.judge(-16_000), Some(OsuJudgement::Marvelous));

    assert_eq!(windows.judge(16_001), Some(OsuJudgement::Perfect));
    assert_eq!(windows.judge(64_000), Some(OsuJudgement::Perfect));

    assert_eq!(windows.judge(64_001), Some(OsuJudgement::Great));
    assert_eq!(windows.judge(97_000), Some(OsuJudgement::Great));

    assert_eq!(windows.judge(97_001), Some(OsuJudgement::Good));
    assert_eq!(windows.judge(127_000), Some(OsuJudgement::Good));

    assert_eq!(windows.judge(127_001), Some(OsuJudgement::Bad));
    assert_eq!(windows.judge(151_000), Some(OsuJudgement::Bad));

    assert_eq!(windows.judge(151_001), Some(OsuJudgement::Miss));
    assert_eq!(windows.judge(500_000), Some(OsuJudgement::Miss));

    assert_eq!(windows.judge(-151_001), None);
    assert_eq!(windows.judge(-500_000), None);
}

#[test]
fn etterna_scales_with_judge_level() {
    let j5 = create_etterna_windows(5);
    assert_eq!(j5.rules[0].window.late, 18_900);
    assert_eq!(j5.rules[4].window.late, 180_000);
    let j9 = create_etterna_windows(9);
    assert_eq!(j9.rules[0].window.late, 4_500);
    assert_eq!(j9.rules[3].window.late, 27_000);
    let j1 = create_etterna_windows(1);
    assert_eq!(j1.rules[0].window.late, 33_750);
    assert_eq!(j1.rules[4].window.late, 270_000);
    assert_eq!(j1.rules[5].window.early, -180_000);
    assert_eq!(j1.miss_after, Some(225_000));
}

#[test]
fn osu_windows_narrow_with_difficulty() {
    let od85 = create_osu_windows(85);
    assert_eq!(od85.rules[0].window.late, 16_000);
    assert_eq!(od85.rules[1].window.late, 38_500);
    assert_eq!(od85.rules[4].window.late, 125_500);
    assert_eq!(od85.miss_after, Some(125_500));
}

#[test]
fn defaults_are_standard() {
    let e = EtternaHitWindows::default();
    assert_eq!(e.judge(22_500), Some(EtternaJudgement::Marvelous));
    let g = GhHitWindows::default();
    assert_eq!(g.judge(100_000), Some(GhJudgement::Hit));
    assert_eq!(g.judge(100_001), Some(GhJudgement::Miss));
}

#[test]
fn ordered_rules_without_miss_limit() {
    let w: OrderedHitWindows<u8, 2> = OrderedHitWindows {
        rules: [
            HitRule { window: HitWindow::new(-1, 1), judgement: 1 },
            HitRule { window: HitWindow::new(-5, 5), judgement: 2 },
        ],
        miss_judgement: 9,
        miss_after: None,
    };
    assert_eq!(w.judge(0), Some(1));
    assert_eq!(w.judge(-4), Some(2));
    assert_eq!(w.judge(6), None);
    let v: OrderedHitWindows<u8, 0> = OrderedHitWindows { rules: [], miss_judgement: 9, miss_after: Some(0) };
    assert_eq!(v.judge(1), Some(9));
    assert_eq!(v.judge(0), None);
}
