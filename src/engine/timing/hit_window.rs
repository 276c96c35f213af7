//! Hit windows with 64-bit microsecond offsets, and judges built from an
//! ordered list of windows.
use vstd::prelude::*;

verus! {

/// An inclusive range of timing offsets, in microseconds (negative is early).
pub struct HitWindow {
    pub early: i64,
    pub late: i64,
}

/// Whether `delta_us` lies within the window, bounds included.
pub open spec fn in_window(w: HitWindow, delta_us: int) -> bool {
    w.early <= delta_us <= w.late
}

impl HitWindow {
    /// A window from `early` to `late`.
    pub fn new(early: i64, late: i64) -> (r: Self)
        ensures
            r.early == early,
            r.late == late,
    {
        HitWindow { early, late }
    }

    /// The window from `-radius` to `radius`.
    pub fn symmetric(radius: i64) -> (r: Self)
        requires
            radius != i64::MIN,
        ensures
            r.early == -radius,
            r.late == radius,
    {
        HitWindow { early: -radius, late: radius }
    }

    /// Whether `delta_us` lies within the window, bounds included.
    pub fn contains(&self, delta_us: i64) -> (r: bool)
        ensures
            r == in_window(*self, delta_us as int),
    {
        delta_us >= self.early && delta_us <= self.late
    }

    /// The span of the window.
    pub fn width(&self) -> (r: i64)
        requires
            i64::MIN <= self.late - self.early <= i64::MAX,
        ensures
            r == self.late - self.early,
    {
        self.late - self.early
    }
}

/// A window and the judgement it gives.
pub struct HitRule<J> {
    pub window: HitWindow,
    pub judgement: J,
}

/// Rules tried in order: the first window that holds the offset gives the
/// judgement; past `miss_after`, if set, the offset is a miss; otherwise
/// the input is ignored.
pub struct OrderedHitWindows<J, const N: usize> {
    pub rules: [HitRule<J>; N],
    pub miss_judgement: J,
    pub miss_after: Option<i64>,
}

/// Judging a timing offset.
pub trait HitWindows {
    type Judgement;

    /// The judgement for an offset.
    spec fn judge_spec(&self, delta_us: i64) -> Option<Self::Judgement>;

    /// Judges an offset: `None` means the input is ignored.
    fn judge(&self, delta_us: i64) -> (r: Option<Self::Judgement>)
        ensures
            r == self.judge_spec(delta_us),
    ;
}

/// The judgement of the first rule from index `i` on whose window holds `delta_us`.
pub open spec fn first_rule<J>(rules: Seq<HitRule<J>>, delta_us: int, i: int) -> Option<J>
    decreases rules.len() - i,
{
    if i < 0 || i >= rules.len() {
        None
    } else if in_window(rules[i].window, delta_us) {
        Some(rules[i].judgement)
    } else {
        first_rule(rules, delta_us, i + 1)
    }
}

/// The judgement that ordered rules give an offset.
pub open spec fn ordered_judge<J, const N: usize>(w: &OrderedHitWindows<J, N>, delta_us: int) -> Option<J> {
    match first_rule(w.rules@, delta_us, 0) {
        Some(j) => Some(j),
        None => match w.miss_after {
            Some(limit) => if delta_us > limit {
                Some(w.miss_judgement)
            } else {
                None
            },
            None => None,
        },
    }
}

impl<J: Copy, const N: usize> HitWindows for OrderedHitWindows<J, N> {
    type Judgement = J;

    open spec fn judge_spec(&self, delta_us: i64) -> Option<J> {
        ordered_judge(self, delta_us as int)
    }

    fn judge(&self, delta_us: i64) -> (r: Option<J>) {
        let mut i: usize = 0;
        while i < N
            invariant
                i <= N,
                self.rules@.len() == N,
                first_rule(self.rules@, delta_us as int, 0) == first_rule(
                    self.rules@,
                    delta_us as int,
                    i as int,
                ),
            decreases N - i,
        {
            let rule = &self.rules[i];
            if rule.window.contains(delta_us) {
                return Some(rule.judgement);
            }
            i = i + 1;
        }
        match self.miss_after {
            Some(limit) => {
                if delta_us > limit {
                    return Some(self.miss_judgement);
                }
            },
            None => {},
        }
        None
    }
}

} // verus!
