//! The text of a CPU profile report.

use vstd::prelude::*;
use crate::cpu_profile::{
    avgs, frame_line, frames_text, head_text, look_line, looks_text, negligible, pad, report_text,
    stats_text, top_zones, writes, zone_line, zones_text, CpuProfile, Frame, FrameStats,
    NumberStyle, Zone, ZoneStats, BITS_0_005, BITS_3, ZONES,
};
use crate::cpu_stats::{computes, frame_figures, zone_figures, ReportOp};
use crate::geom::Scalar;
use crate::order::BITS_0_05;
use crate::ranking::{places, rank, Ranking};
use crate::text::{chars_of, decimal};

verus! {

/// The line of zone `i`.
fn zone_row<F: Fn(NumberStyle, Scalar) -> String>(i: usize, z: &ZoneStats, show: &F) -> (r: String)
    requires
        i < ZONES,
        forall|s: NumberStyle, x: Scalar| call_requires(*show, (s, x)),
    ensures
        forall|m: spec_fn(NumberStyle, Scalar) -> Seq<char>|
            writes(*show, m) ==> r@ == #[trigger] zone_line(m, i as int, *z),
{
    let all = Zone::all();
    let mut out = String::new();
    out.append("  ");
    out.append(&pad(all[i].name(), 22));
    out.append("  ");
    let avg = show(NumberStyle::Column, z.avg);
    out.append(&avg);
    out.append(" ");
    let p50 = show(NumberStyle::Column, z.p50);
    out.append(&p50);
    out.append(" ");
    let p95 = show(NumberStyle::Column, z.p95);
    out.append(&p95);
    out.append(" ");
    let max = show(NumberStyle::Column, z.max);
    out.append(&max);
    out.append("  ");
    let share = show(NumberStyle::Share, z.share);
    out.append(&share);
    out.append("%\n");
    assert forall|m: spec_fn(NumberStyle, Scalar) -> Seq<char>| writes(*show, m) implies out@
        == #[trigger] zone_line(m, i as int, *z) by {
        assert(avg@ == m(NumberStyle::Column, z.avg));
        assert(p50@ == m(NumberStyle::Column, z.p50));
        assert(p95@ == m(NumberStyle::Column, z.p95));
        assert(max@ == m(NumberStyle::Column, z.max));
        assert(share@ == m(NumberStyle::Share, z.share));
        assert(out@ =~= zone_line(m, i as int, *z));
    }
    out
}

/// The lines of the zones that are worth one, in `order`.
fn zone_table<F: Fn(NumberStyle, Scalar) -> String>(
    zs: &Vec<ZoneStats>,
    order: &Vec<usize>,
    show: &F,
) -> (r: String)
    requires
        zs@.len() == ZONES,
        forall|i: int| 0 <= i < order@.len() ==> (#[trigger] order@[i]) < ZONES,
        forall|s: NumberStyle, x: Scalar| call_requires(*show, (s, x)),
    ensures
        forall|m: spec_fn(NumberStyle, Scalar) -> Seq<char>|
            writes(*show, m) ==> r@ == #[trigger] zones_text(
                m,
                zs@,
                places(order@),
                order@.len() as int,
            ),
{
    let ghost o = places(order@);
    let mut out = String::new();
    let mut k: usize = 0;
    assert(out@ =~= Seq::empty());
    while k < order.len()
        invariant
            k <= order@.len(),
            o == places(order@),
            zs@.len() == ZONES,
            forall|i: int| 0 <= i < order@.len() ==> (#[trigger] order@[i]) < ZONES,
            forall|s: NumberStyle, x: Scalar| call_requires(*show, (s, x)),
            forall|m: spec_fn(NumberStyle, Scalar) -> Seq<char>|
                writes(*show, m) ==> out@ == #[trigger] zones_text(m, zs@, o, k as int),
        decreases order.len() - k,
    {
        let i = order[k];
        assert(o[k as int] == i);
        let z = zs[i];
        let ghost was = out@;
        let small = z.avg.less(&(Scalar { bits: BITS_0_005 })) && z.max.less(
            &(Scalar { bits: BITS_0_05 }),
        );
        assert(small == negligible(z));
        let ghost mut line = Seq::<char>::empty();
        if !small {
            let row = zone_row(i, &z, show);
            proof {
                line = row@;
            }
            assert(forall|m: spec_fn(NumberStyle, Scalar) -> Seq<char>|
                writes(*show, m) ==> line == #[trigger] zone_line(m, i as int, z));
            out.append(&row);
        }
        let ghost k0 = k as int;
        k = k + 1;
        assert forall|m: spec_fn(NumberStyle, Scalar) -> Seq<char>| writes(*show, m) implies out@
            == #[trigger] zones_text(m, zs@, o, k as int) by {
            assert(was == zones_text(m, zs@, o, k0));
            assert(k as int - 1 == k0);
            if !small {
                assert(line == zone_line(m, i as int, z));
            }
        }
    }
    out
}

/// Where to look, for the zones that are worth it, in `order`.
fn look_table(zs: &Vec<ZoneStats>, order: &Vec<usize>) -> (r: String)
    requires
        zs@.len() == ZONES,
        forall|i: int| 0 <= i < order@.len() ==> (#[trigger] order@[i]) < ZONES,
    ensures
        r@ == looks_text(zs@, places(order@), order@.len() as int),
{
    let ghost o = places(order@);
    let all = Zone::all();
    let mut out = String::new();
    let mut k: usize = 0;
    assert(out@ =~= Seq::empty());
    while k < order.len()
        invariant
            k <= order@.len(),
            o == places(order@),
            zs@.len() == ZONES,
            all@ == Zone::order(),
            forall|i: int| 0 <= i < order@.len() ==> (#[trigger] order@[i]) < ZONES,
            out@ == looks_text(zs@, o, k as int),
        decreases order.len() - k,
    {
        let i = order[k];
        assert(o[k as int] == i);
        let z = zs[i];
        let ghost was = out@;
        if !z.share.less(&(Scalar { bits: BITS_3 })) {
            out.append("  ");
            out.append(&pad(all[i].name(), 22));
            out.append("  ");
            out.append(all[i].look());
            out.append("\n");
            assert(out@ =~= was + look_line(i as int));
        }
        k = k + 1;
    }
    out
}

/// The line of frame `i`.
fn frame_row<F: Fn(NumberStyle, Scalar) -> String>(i: usize, f: &Frame, show: &F) -> (r: String)
    requires
        forall|s: NumberStyle, x: Scalar| call_requires(*show, (s, x)),
    ensures
        forall|m: spec_fn(NumberStyle, Scalar) -> Seq<char>|
            writes(*show, m) ==> r@ == #[trigger] frame_line(m, i as int, f@),
{
    let ghost zones = f@.zones;
    let mut keys: Vec<Scalar> = Vec::new();
    let mut k: usize = 0;
    while k < ZONES
        invariant
            k <= ZONES,
            zones == f.zones@,
            zones.len() == 20,
            keys@ == zones.take(k as int),
        decreases ZONES - k,
    {
        keys.push(f.zones[k]);
        assert(zones.take(k as int + 1) =~= zones.take(k as int).push(zones[k as int]));
        k = k + 1;
    }
    assert(zones.take(k as int) =~= zones);
    let order = rank(&keys, Ranking::TotalFalling);
    let ghost o = places(order@);
    let total = show(NumberStyle::Column, f.total_ms);
    let all = Zone::all();
    let mut top = String::new();
    let mut j: usize = 0;
    assert(top@ =~= Seq::empty());
    while j < 3
        invariant
            j <= 3,
            keys@ == zones,
            zones.len() == 20,
            o == places(order@),
            order@.len() == 20,
            forall|i: int| 0 <= i < order@.len() ==> (#[trigger] order@[i]) < 20,
            all@ == Zone::order(),
            forall|s: NumberStyle, x: Scalar| call_requires(*show, (s, x)),
            forall|m: spec_fn(NumberStyle, Scalar) -> Seq<char>|
                writes(*show, m) ==> top@ == #[trigger] top_zones(m, zones, o, j as int),
        decreases 3 - j,
    {
        let ghost was = top@;
        let z = order[j];
        assert(o[j as int] == z);
        if j > 0 {
            top.append("  ");
        }
        top.append(all[z].name());
        top.append("=");
        let ms = show(NumberStyle::Cents, keys[z]);
        top.append(&ms);
        let ghost j0 = j as int;
        j = j + 1;
        assert forall|m: spec_fn(NumberStyle, Scalar) -> Seq<char>| writes(*show, m) implies top@
            == #[trigger] top_zones(m, zones, o, j as int) by {
            assert(was == top_zones(m, zones, o, j0));
            assert(j as int - 1 == j0);
            assert(ms@ == m(NumberStyle::Cents, zones[z as int]));
            assert(top@ =~= top_zones(m, zones, o, j as int));
        }
    }
    let mut out = String::new();
    out.append("  #");
    out.append(&pad(&decimal(i as u64), 3));
    out.append(" ");
    out.append(&total);
    out.append("  ");
    out.append(&top);
    out.append("\n");
    assert forall|m: spec_fn(NumberStyle, Scalar) -> Seq<char>| writes(*show, m) implies out@
        == #[trigger] frame_line(m, i as int, f@) by {
        assert(total@ == m(NumberStyle::Column, f.total_ms));
        assert(top@ == top_zones(m, zones, o, 3));
        assert(out@ =~= frame_line(m, i as int, f@));
    }
    out
}

impl CpuProfile {
    /// The lines of the worst frames.
    fn frame_table<F: Fn(NumberStyle, Scalar) -> String>(&self, order: &Vec<usize>, n: usize, show: &F) -> (r:
        String)
        requires
            n <= order@.len(),
            forall|i: int| 0 <= i < order@.len() ==> (#[trigger] order@[i]) < self.frames@.len(),
            forall|s: NumberStyle, x: Scalar| call_requires(*show, (s, x)),
        ensures
            forall|m: spec_fn(NumberStyle, Scalar) -> Seq<char>|
                writes(*show, m) ==> r@ == #[trigger] frames_text(
                    m,
                    self@,
                    places(order@),
                    n as int,
                ),
    {
        let ghost o = places(order@);
        let mut out = String::new();
        let mut k: usize = 0;
        assert(out@ =~= Seq::empty());
        while k < n
            invariant
                k <= n,
                n <= order@.len(),
                o == places(order@),
                forall|i: int|
                    0 <= i < order@.len() ==> (#[trigger] order@[i]) < self.frames@.len(),
                forall|s: NumberStyle, x: Scalar| call_requires(*show, (s, x)),
                forall|m: spec_fn(NumberStyle, Scalar) -> Seq<char>|
                    writes(*show, m) ==> out@ == #[trigger] frames_text(m, self@, o, k as int),
            decreases n - k,
        {
            let ghost was = out@;
            let i = order[k];
            assert(o[k as int] == i);
            assert(self@[i as int] == self.frames@[i as int]@);
            let row = frame_row(i, &self.frames[i], show);
            out.append(&row);
            let ghost k0 = k as int;
            k = k + 1;
            assert forall|m: spec_fn(NumberStyle, Scalar) -> Seq<char>| writes(*show, m) implies out@
                == #[trigger] frames_text(m, self@, o, k as int) by {
                assert(was == frames_text(m, self@, o, k0));
                assert(k as int - 1 == k0);
                assert(row@ == frame_line(m, i as int, self@[i as int]));
            }
        }
        out
    }

    /// The report on all frames that are kept; `extra` is a line of the host's
    /// own. The host does the arithmetic and writes the numbers.
    pub fn format<A: Fn(ReportOp) -> Scalar, F: Fn(NumberStyle, Scalar) -> String>(
        &self,
        extra: &str,
        math: &A,
        show: &F,
    ) -> (r: String)
        requires
            self.wf(),
            forall|op: ReportOp| call_requires(*math, (op,)),
            forall|s: NumberStyle, x: Scalar| call_requires(*show, (s, x)),
        ensures
            forall|h: spec_fn(ReportOp) -> Scalar, m: spec_fn(NumberStyle, Scalar) -> Seq<char>|
                computes(*math, h) && writes(*show, m) ==> r@ == #[trigger] report_text(
                    m,
                    self@,
                    extra@,
                    frame_figures(h, self@),
                    zone_figures(h, self@),
                ),
    {
        if self.frames.len() == 0 {
            let mut out = head(0, extra);
            out.append("no frames yet — run the app a few seconds, then F8\n");
            return out;
        }
        let stats = self.frame_stats(math);
        let zones = self.zone_stats(math);
        let out = self.full_report(extra, &stats, &zones, show);
        assert forall|h: spec_fn(ReportOp) -> Scalar, m: spec_fn(NumberStyle, Scalar) -> Seq<char>|
            computes(*math, h) && writes(*show, m) implies out@ == #[trigger] report_text(
            m,
            self@,
            extra@,
            frame_figures(h, self@),
            zone_figures(h, self@),
        ) by {
            assert(stats == frame_figures(h, self@));
            assert(zones@ == zone_figures(h, self@));
            assert(out@ == report_text(m, self@, extra@, stats, zones@));
        }
        out
    }

    /// The report that gives the figures `stats` and `zones`.
    fn full_report<F: Fn(NumberStyle, Scalar) -> String>(
        &self,
        extra: &str,
        stats: &FrameStats,
        zones: &Vec<ZoneStats>,
        show: &F,
    ) -> (r: String)
        requires
            self@.len() > 0,
            zones@.len() == ZONES,
            forall|s: NumberStyle, x: Scalar| call_requires(*show, (s, x)),
        ensures
            forall|m: spec_fn(NumberStyle, Scalar) -> Seq<char>|
                writes(*show, m) ==> r@ == #[trigger] report_text(
                    m,
                    self@,
                    extra@,
                    *stats,
                    zones@,
                ),
    {
        let n = self.frames.len();
        let mut out = head(n, extra);
        let totals_list = self.total_list();
        let worst = rank(&totals_list, Ranking::TotalFalling);
        let avg_list = avg_keys(zones);
        let by_avg = rank(&avg_list, Ranking::TotalFalling);
        let shown: usize = if n < 8 {
            n
        } else {
            8
        };
        let s = stats_rows(stats, show);
        let zt = zone_table(zones, &by_avg, show);
        let lt = look_table(zones, &by_avg);
        let ft = self.frame_table(&worst, shown, show);
        out.append(&s);
        out.append("\nzones (ms)                    avg    p50    p95    max   %frame\n");
        out.append(&zt);
        out.append("\nlook (share >= 3%)\n");
        out.append(&lt);
        out.append("\nworst frames (ms, top 3 zones)\n");
        out.append(&ft);
        out.append(
            "\nread: large `swapchain` = waiting on GPU/vsync, not CPU. `gpu_scene` is CPU encode of the 3D pass (inside mega-render).\n",
        );
        assert forall|m: spec_fn(NumberStyle, Scalar) -> Seq<char>| writes(*show, m) implies out@
            == #[trigger] report_text(m, self@, extra@, *stats, zones@) by {
            assert(s@ == stats_text(m, *stats));
            assert(zt@ == zones_text(m, zones@, places(by_avg@), by_avg@.len() as int));
            assert(ft@ == frames_text(m, self@, places(worst@), shown as int));
            assert(out@ =~= report_text(m, self@, extra@, *stats, zones@));
        }
        out
    }
}

fn avg_keys(zs: &Vec<ZoneStats>) -> (r: Vec<Scalar>)
    ensures
        r@ == avgs(zs@),
{
    let ghost want = avgs(zs@);
    let mut keys: Vec<Scalar> = Vec::new();
    let mut i: usize = 0;
    while i < zs.len()
        invariant
            i <= zs@.len(),
            want == avgs(zs@),
            keys@ == want.take(i as int),
        decreases zs.len() - i,
    {
        keys.push(zs[i].avg);
        assert(want.take(i as int + 1) =~= want.take(i as int).push(want[i as int]));
        i = i + 1;
    }
    assert(want.take(i as int) =~= want);
    keys
}

/// The beginning of the report.
fn head(n: usize, extra: &str) -> (r: String)
    ensures
        r@ == head_text(n as nat, extra@),
{
    let mut out = String::new();
    out.append("model-rig CPU profile\nframes=");
    out.append(&decimal(n as u64));
    out.append(" (ring cap 600)\n");
    let chars = chars_of(extra);
    if chars.len() > 0 {
        out.append(extra);
        out.append("\n");
    }
    assert(out@ =~= head_text(n as nat, extra@));
    out
}

/// The lines about frames as a whole.
fn stats_rows<F: Fn(NumberStyle, Scalar) -> String>(s: &FrameStats, show: &F) -> (r: String)
    requires
        forall|s: NumberStyle, x: Scalar| call_requires(*show, (s, x)),
    ensures
        forall|m: spec_fn(NumberStyle, Scalar) -> Seq<char>|
            writes(*show, m) ==> r@ == #[trigger] stats_text(m, *s),
{
    let mut out = String::new();
    out.append("\nframe_ms  avg=");
    let a = show(NumberStyle::Cents, s.avg);
    out.append(&a);
    out.append("  p50=");
    let b = show(NumberStyle::Cents, s.p50);
    out.append(&b);
    out.append("  p95=");
    let c = show(NumberStyle::Cents, s.p95);
    out.append(&c);
    out.append("  max=");
    let d = show(NumberStyle::Cents, s.max);
    out.append(&d);
    out.append("\nfps_est   avg=");
    let e = show(NumberStyle::Whole, s.fps_avg);
    out.append(&e);
    out.append("  p50=");
    let f = show(NumberStyle::Whole, s.fps_p50);
    out.append(&f);
    out.append("  p95_slow=");
    let g = show(NumberStyle::Whole, s.fps_p95);
    out.append(&g);
    out.append("\n");
    assert forall|m: spec_fn(NumberStyle, Scalar) -> Seq<char>| writes(*show, m) implies out@
        == #[trigger] stats_text(m, *s) by {
        assert(a@ == m(NumberStyle::Cents, s.avg));
        assert(b@ == m(NumberStyle::Cents, s.p50));
        assert(c@ == m(NumberStyle::Cents, s.p95));
        assert(d@ == m(NumberStyle::Cents, s.max));
        assert(e@ == m(NumberStyle::Whole, s.fps_avg));
        assert(f@ == m(NumberStyle::Whole, s.fps_p50));
        assert(g@ == m(NumberStyle::Whole, s.fps_p95));
        assert(out@ =~= stats_text(m, *s));
    }
    out
}

} // verus!
