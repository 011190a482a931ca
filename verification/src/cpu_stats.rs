//! The figures of a CPU profile report: means, percentiles and the longest time.

use vstd::prelude::*;
use crate::cpu_profile::{
    totals, zone_times, CpuProfile, FrameStats, FrameView, Zone, ZoneStats, CAP, ZONES,
};
use crate::geom::{Scalar, BITS_0_01, BITS_ZERO};
use crate::order::{ahead_of, larger};
use crate::ranking::{law_ranked_order, law_ranked_places, ranked, rising, Ranking};

verus! {

/// Arithmetic that the host does for a report.
#[derive(Clone, Copy, Debug, PartialEq, Eq, Structural)]
pub enum ReportOp {
    Add(Scalar, Scalar),
    /// `sum` shared out among `n`.
    Over { sum: Scalar, n: usize },
    /// How often a span of so many milliseconds fits into a second.
    Rate(Scalar),
    /// The percentage that `part` is of `whole`.
    Share { part: Scalar, whole: Scalar },
}

/// `math` computes what `h` says.
pub open spec fn computes<A: Fn(ReportOp) -> Scalar>(
    math: A,
    h: spec_fn(ReportOp) -> Scalar,
) -> bool {
    forall|op: ReportOp, x: Scalar| #[trigger] call_ensures(math, (op,), x) ==> x == h(op)
}

/// The first `n` numbers of `v`, one added after the other.
pub open spec fn summed(h: spec_fn(ReportOp) -> Scalar, v: Seq<Scalar>, n: int) -> Scalar
    decreases n,
{
    if n <= 0 {
        Scalar { bits: BITS_ZERO }
    } else {
        h(ReportOp::Add(summed(h, v, n - 1), v[n - 1]))
    }
}

pub open spec fn mean_of(h: spec_fn(ReportOp) -> Scalar, v: Seq<Scalar>) -> Scalar {
    h(ReportOp::Over { sum: summed(h, v, v.len() as int), n: v.len() as usize })
}

/// The place `percent` of the way from the first of `n` places to the last, to
/// the nearest place; half way between two it is the later one.
pub open spec fn percent_place(n: int, percent: int) -> int {
    (2 * (n - 1) * percent + 100) / 200
}

/// The number `percent` of the way through `v`.
pub open spec fn percentile(v: Seq<Scalar>, percent: int) -> Scalar {
    if v.len() == 0 {
        Scalar { bits: BITS_ZERO }
    } else {
        v[percent_place(v.len() as int, percent)]
    }
}

pub open spec fn rate_of(h: spec_fn(ReportOp) -> Scalar, ms: Scalar) -> Scalar {
    h(ReportOp::Rate(larger(ms, Scalar { bits: BITS_0_01 })))
}

/// The figures of the frames `fs`.
pub open spec fn frame_figures(h: spec_fn(ReportOp) -> Scalar, fs: Seq<FrameView>) -> FrameStats {
    let v = rising(totals(fs));
    FrameStats {
        avg: mean_of(h, v),
        p50: percentile(v, 50),
        p95: percentile(v, 95),
        max: v.last(),
        fps_avg: rate_of(h, mean_of(h, v)),
        fps_p50: rate_of(h, percentile(v, 50)),
        fps_p95: rate_of(h, percentile(v, 95)),
    }
}

/// The figures of zone `i` in the frames `fs`.
pub open spec fn zone_figure(h: spec_fn(ReportOp) -> Scalar, fs: Seq<FrameView>, i: int) -> ZoneStats {
    let v = rising(zone_times(fs, i));
    ZoneStats {
        avg: mean_of(h, v),
        p50: percentile(v, 50),
        p95: percentile(v, 95),
        max: v.last(),
        share: h(
            ReportOp::Share {
                part: mean_of(h, v),
                whole: larger(mean_of(h, rising(totals(fs))), Scalar { bits: BITS_0_01 }),
            },
        ),
    }
}

/// The figures of all zones in the frames `fs`.
pub open spec fn zone_figures(h: spec_fn(ReportOp) -> Scalar, fs: Seq<FrameView>) -> Seq<ZoneStats> {
    Seq::new(ZONES as nat, |i: int| zone_figure(h, fs, i))
}

/// The place of a percentile is one of the `n` places, no other place is nearer
/// to where it should be, and of two that are as near it is the later.
pub proof fn law_percent_place(n: int, percent: int, k: int)
    requires
        0 < n,
        0 <= percent <= 100,
    ensures
        0 <= percent_place(n, percent) < n,
        ({
            let want = (n - 1) * percent;
            let here = 100 * percent_place(n, percent) - want;
            let there = 100 * k - want;
            k != percent_place(n, percent) ==> {
                ||| -there > here && -there > -here
                ||| there > here && there > -here
                ||| there == -here && there < here
            }
        }),
{
    let want = (n - 1) * percent;
    assert(0 <= want <= (n - 1) * 100) by (nonlinear_arith)
        requires
            want == (n - 1) * percent,
            0 < n,
            0 <= percent <= 100,
    ;
    assert(2 * (n - 1) * percent == 2 * want) by (nonlinear_arith)
        requires
            want == (n - 1) * percent,
    ;
}

/// Each number of a list stands somewhere in it when it is put in order, and no
/// number comes after the last one.
pub proof fn law_longest(v: Seq<Scalar>, k: int)
    requires
        0 <= k < v.len(),
    ensures
        rising(v).len() == v.len(),
        rising(v).contains(v[k]),
        v.contains(rising(v).last()),
        !ahead_of(rising(v).last(), v[k]),
{
    let n = v.len() as int;
    let o = ranked(v, Ranking::TotalRising, n);
    law_ranked_places(v, Ranking::TotalRising, n);
    law_ranked_order(v, Ranking::TotalRising, n);
    assert(o.contains(k));
    let i = choose|i: int| 0 <= i < o.len() && o[i] == k;
    assert(rising(v)[i] == v[k]);
    assert(o.contains(o[n - 1]));
    assert(rising(v).last() == v[o[n - 1]]);
}

/// The number `percent` of the way through `sorted`; none gives 0.
pub fn pct(sorted: &Vec<Scalar>, percent: usize) -> (r: Scalar)
    requires
        sorted@.len() <= CAP,
        percent <= 100,
    ensures
        r == percentile(sorted@, percent as int),
{
    if sorted.len() == 0 {
        return Scalar { bits: BITS_ZERO };
    }
    let last = sorted.len() - 1;
    proof {
        law_percent_place(sorted@.len() as int, percent as int, 0);
        assert(2 * last * percent + 100 <= 2 * 600 * 100 + 100) by (nonlinear_arith)
            requires
                last <= 600,
                percent <= 100,
        ;
    }
    sorted[(2 * last * percent + 100) / 200]
}

/// The mean of `v`.
fn mean<A: Fn(ReportOp) -> Scalar>(v: &Vec<Scalar>, math: &A) -> (r: Scalar)
    requires
        forall|op: ReportOp| call_requires(*math, (op,)),
    ensures
        forall|h: spec_fn(ReportOp) -> Scalar|
            computes(*math, h) ==> r == #[trigger] mean_of(h, v@),
{
    let mut sum = Scalar { bits: BITS_ZERO };
    let mut i: usize = 0;
    while i < v.len()
        invariant
            i <= v@.len(),
            forall|op: ReportOp| call_requires(*math, (op,)),
            forall|h: spec_fn(ReportOp) -> Scalar|
                computes(*math, h) ==> sum == #[trigger] summed(h, v@, i as int),
        decreases v.len() - i,
    {
        let ghost was = sum;
        sum = math(ReportOp::Add(sum, v[i]));
        assert forall|h: spec_fn(ReportOp) -> Scalar| computes(*math, h) implies sum
            == #[trigger] summed(h, v@, i as int + 1) by {
            assert(was == summed(h, v@, i as int));
        }
        i = i + 1;
    }
    let r = math(ReportOp::Over { sum, n: v.len() });
    assert forall|h: spec_fn(ReportOp) -> Scalar| computes(*math, h) implies r == #[trigger] mean_of(
        h,
        v@,
    ) by {
        assert(sum == summed(h, v@, v@.len() as int));
    }
    r
}

/// How often `ms` milliseconds, or a hundredth of one if that is more, fit into
/// a second.
fn rate<A: Fn(ReportOp) -> Scalar>(ms: Scalar, math: &A) -> (r: Scalar)
    requires
        forall|op: ReportOp| call_requires(*math, (op,)),
    ensures
        forall|h: spec_fn(ReportOp) -> Scalar|
            computes(*math, h) ==> r == #[trigger] rate_of(h, ms),
{
    math(ReportOp::Rate(ms.or_larger(&(Scalar { bits: BITS_0_01 }))))
}

impl CpuProfile {
    /// The figures over all frames that are kept.
    pub fn frame_stats<A: Fn(ReportOp) -> Scalar>(&self, math: &A) -> (r: FrameStats)
        requires
            self.wf(),
            self@.len() > 0,
            forall|op: ReportOp| call_requires(*math, (op,)),
        ensures
            forall|h: spec_fn(ReportOp) -> Scalar|
                computes(*math, h) ==> r == #[trigger] frame_figures(h, self@),
    {
        let v = self.sorted_totals();
        let avg = mean(&v, math);
        let p50 = pct(&v, 50);
        let p95 = pct(&v, 95);
        let r = FrameStats {
            avg,
            p50,
            p95,
            max: v[v.len() - 1],
            fps_avg: rate(avg, math),
            fps_p50: rate(p50, math),
            fps_p95: rate(p95, math),
        };
        assert forall|h: spec_fn(ReportOp) -> Scalar| computes(*math, h) implies r
            == #[trigger] frame_figures(h, self@) by {
            assert(avg == mean_of(h, v@));
            assert(r.fps_avg == rate_of(h, avg));
            assert(r.fps_p50 == rate_of(h, p50));
            assert(r.fps_p95 == rate_of(h, p95));
        }
        r
    }

    /// The figures of each zone over all frames that are kept.
    pub fn zone_stats<A: Fn(ReportOp) -> Scalar>(&self, math: &A) -> (r: Vec<ZoneStats>)
        requires
            self.wf(),
            self@.len() > 0,
            forall|op: ReportOp| call_requires(*math, (op,)),
        ensures
            r@.len() == ZONES,
            forall|h: spec_fn(ReportOp) -> Scalar|
                computes(*math, h) ==> r@ == #[trigger] zone_figures(h, self@),
    {
        let t = self.sorted_totals();
        let avg = mean(&t, math);
        let whole = avg.or_larger(&(Scalar { bits: BITS_0_01 }));
        let all = Zone::all();
        let mut out: Vec<ZoneStats> = Vec::new();
        let mut i: usize = 0;
        while i < ZONES
            invariant
                i <= ZONES,
                self.wf(),
                self@.len() > 0,
                all@ == Zone::order(),
                whole == larger(avg, Scalar { bits: BITS_0_01 }),
                forall|op: ReportOp| call_requires(*math, (op,)),
                forall|h: spec_fn(ReportOp) -> Scalar|
                    computes(*math, h) ==> avg == #[trigger] mean_of(h, rising(totals(self@))),
                out@.len() == i,
                forall|h: spec_fn(ReportOp) -> Scalar, j: int|
                    computes(*math, h) && 0 <= j < i ==> out@[j] == #[trigger] zone_figure(
                        h,
                        self@,
                        j,
                    ),
            decreases ZONES - i,
        {
            let z = all[i];
            assert(z.index_of() == i);
            let v = self.sorted_zone(z);
            let part = mean(&v, math);
            let row = ZoneStats {
                avg: part,
                p50: pct(&v, 50),
                p95: pct(&v, 95),
                max: v[v.len() - 1],
                share: math(ReportOp::Share { part, whole }),
            };
            assert forall|h: spec_fn(ReportOp) -> Scalar| computes(*math, h) implies row
                == #[trigger] zone_figure(h, self@, i as int) by {
                assert(part == mean_of(h, v@));
                assert(avg == mean_of(h, rising(totals(self@))));
            }
            out.push(row);
            i = i + 1;
        }
        assert forall|h: spec_fn(ReportOp) -> Scalar| computes(*math, h) implies out@
            == #[trigger] zone_figures(h, self@) by {
            assert forall|j: int| 0 <= j < ZONES implies out@[j] == zone_figures(h, self@)[j] by {
                assert(out@[j] == zone_figure(h, self@, j));
            }
            assert(out@ =~= zone_figures(h, self@));
        }
        out
    }
}

} // verus!
