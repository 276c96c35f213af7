//! Hit windows with 32-bit microsecond offsets, and fixed judges for osu!,
//! Etterna and Guitar Hero style windows.
use vstd::prelude::*;

pub mod hit_window;
pub mod hit_windows;

verus! {

/// An inclusive range of timing offsets, in microseconds (negative is early).
pub struct HitWindow {
    pub early: i32,
    pub late: i32,
}

/// Whether `delta_us` lies within the window, bounds included.
pub open spec fn in_window(w: HitWindow, delta_us: int) -> bool {
    w.early <= delta_us <= w.late
}

impl HitWindow {
    /// A window from `early` to `late`.
    pub fn new(early: i32, late: i32) -> (r: Self)
        ensures
            r.early == early,
            r.late == late,
    {
        HitWindow { early, late }
    }

    /// The window from `-radius` to `radius`.
    pub fn symmetric(radius: i32) -> (r: Self)
        requires
            radius != i32::MIN,
        ensures
            r.early == -radius,
            r.late == radius,
    {
        HitWindow { early: -radius, late: radius }
    }

    /// Whether `delta_us` lies within the window, bounds included.
    pub fn contains(&self, delta_us: i32) -> (r: bool)
        ensures
            r == in_window(*self, delta_us as int),
    {
        delta_us >= self.early && delta_us <= self.late
    }

    /// The span of the window.
    pub fn width(&self) -> (r: i32)
        requires
            i32::MIN <= self.late - self.early <= i32::MAX,
        ensures
            r == self.late - self.early,
    {
        self.late - self.early
    }
}

/// Judging a timing offset.
pub trait HitWindows {
    type Judgement;

    /// The judgement for an offset.
    spec fn judge_spec(&self, delta_us: i32) -> Option<Self::Judgement>;

    /// Judges an offset: `None` means the input is ignored.
    fn judge(&self, delta_us: i32) -> (r: Option<Self::Judgement>)
        ensures
            r == self.judge_spec(delta_us),
    ;
}

/// osu! judgements, best first.
#[derive(Debug, Clone, Copy, PartialEq, Eq, Structural)]
pub enum OsuJudgement {
    Max,
    Great,
    Good,
    Okay,
    Meh,
    Miss,
}

/// One window per osu! judgement; later than the widest is a miss, earlier is ignored.
pub struct OsuHitWindows {
    pub max: HitWindow,
    pub great: HitWindow,
    pub good: HitWindow,
    pub ok: HitWindow,
    pub meh: HitWindow,
}

impl HitWindows for OsuHitWindows {
    type Judgement = OsuJudgement;

    open spec fn judge_spec(&self, delta_us: i32) -> Option<OsuJudgement> {
        let d = delta_us as int;
        if in_window(self.max, d) {
            Some(OsuJudgement::Max)
        } else if in_window(self.great, d) {
            Some(OsuJudgement::Great)
        } else if in_window(self.good, d) {
            Some(OsuJudgement::Good)
        } else if in_window(self.ok, d) {
            Some(OsuJudgement::Okay)
        } else if in_window(self.meh, d) {
            Some(OsuJudgement::Meh)
        } else if d > self.meh.late {
            Some(OsuJudgement::Miss)
        } else {
            None
        }
    }

    fn judge(&self, delta_us: i32) -> (r: Option<OsuJudgement>) {
        if self.max.contains(delta_us) {
            Some(OsuJudgement::Max)
        } else if self.great.contains(delta_us) {
            Some(OsuJudgement::Great)
        } else if self.good.contains(delta_us) {
            Some(OsuJudgement::Good)
        } else if self.ok.contains(delta_us) {
            Some(OsuJudgement::Okay)
        } else if self.meh.contains(delta_us) {
            Some(OsuJudgement::Meh)
        } else if delta_us > self.meh.late {
            Some(OsuJudgement::Miss)
        } else {
            None
        }
    }
}

/// Etterna judgements, best first.
#[derive(Debug, Clone, Copy, PartialEq, Eq, Structural)]
pub enum EtternaJudgement {
    Marvelous,
    Perfect,
    Great,
    Good,
    Bad,
    Boo,
    Miss,
}

/// One window per Etterna judgement; later than the boo window is a miss.
pub struct EtternaHitWindows {
    pub marvelous: HitWindow,
    pub perfect: HitWindow,
    pub great: HitWindow,
    pub good: HitWindow,
    pub bad: HitWindow,
    pub boo: HitWindow,
}

impl HitWindows for EtternaHitWindows {
    type Judgement = EtternaJudgement;

    open spec fn judge_spec(&self, delta_us: i32) -> Option<EtternaJudgement> {
        let d = delta_us as int;
        if in_window(self.marvelous, d) {
            Some(EtternaJudgement::Marvelous)
        } else if in_window(self.perfect, d) {
            Some(EtternaJudgement::Perfect)
        } else if in_window(self.great, d) {
            Some(EtternaJudgement::Great)
        } else if in_window(self.good, d) {
            Some(EtternaJudgement::Good)
        } else if in_window(self.bad, d) {
            Some(EtternaJudgement::Bad)
        } else if in_window(self.boo, d) {
            Some(EtternaJudgement::Boo)
        } else if d > self.boo.late {
            Some(EtternaJudgement::Miss)
        } else {
            None
        }
    }

    fn judge(&self, delta_us: i32) -> (r: Option<EtternaJudgement>) {
        if self.marvelous.contains(delta_us) {
            Some(EtternaJudgement::Marvelous)
        } else if self.perfect.contains(delta_us) {
            Some(EtternaJudgement::Perfect)
        } else if self.great.contains(delta_us) {
            Some(EtternaJudgement::Great)
        } else if self.good.contains(delta_us) {
            Some(EtternaJudgement::Good)
        } else if self.bad.contains(delta_us) {
            Some(EtternaJudgement::Bad)
        } else if self.boo.contains(delta_us) {
            Some(EtternaJudgement::Boo)
        } else if delta_us > self.boo.late {
            Some(EtternaJudgement::Miss)
        } else {
            None
        }
    }
}

/// Guitar Hero judgements.
#[derive(Debug, Clone, Copy, PartialEq, Eq, Structural)]
pub enum GhJudgement {
    Hit,
    Miss,
}

/// A single hit window; later than it is a miss.
pub struct GhHitWindows {
    pub hit: HitWindow,
}

impl HitWindows for GhHitWindows {
    type Judgement = GhJudgement;

    open spec fn judge_spec(&self, delta_us: i32) -> Option<GhJudgement> {
        let d = delta_us as int;
        if in_window(self.hit, d) {
            Some(GhJudgement::Hit)
        } else if d > self.hit.late {
            Some(GhJudgement::Miss)
        } else {
            None
        }
    }

    fn judge(&self, delta_us: i32) -> (r: Option<GhJudgement>) {
        if self.hit.contains(delta_us) {
            Some(GhJudgement::Hit)
        } else if delta_us > self.hit.late {
            Some(GhJudgement::Miss)
        } else {
            None
        }
    }
}

} // verus!
