//! What the figures of a profile report say, and which lines a report has.

use vstd::prelude::*;
use crate::cpu_profile::{
    avgs, frame_line, frames_text, head_text, kept, listed, look_line, looks_text, negligible, padded, report_text,
    stats_text, top_zones, totals, weighty, zone_line, zone_times, zones_text, FrameStats, FrameView, NumberStyle, Zone,
    ZoneStats,
};
use crate::cpu_stats::{frame_figures, law_longest, mean_of, summed, zone_figures, ReportOp};
use crate::geom::Scalar;
use crate::order::{ahead_of, larger, less_than};
use crate::ranking::{law_ranked_order, law_ranked_places, ranked, rising, Ranking};
use crate::script_laws::stands_in;
use crate::text::decimal_of;

verus! {

/// The whole numbers that `f` gives for the numbers of `v`, taken together.
pub open spec fn counted(f: spec_fn(Scalar) -> int, v: Seq<Scalar>) -> int {
    v.fold_left(0int, |a: int, x: Scalar| a + f(x))
}

/// Where the host adds as whole numbers add, the sum of all numbers is theirs:
/// each is taken, and once.
pub proof fn law_summed(h: spec_fn(ReportOp) -> Scalar, f: spec_fn(Scalar) -> int, v: Seq<Scalar>)
    requires
        f(Scalar { bits: 0 }) == 0,
        forall|a: Scalar, b: Scalar| f(#[trigger] h(ReportOp::Add(a, b))) == f(a) + f(b),
    ensures
        f(summed(h, v, v.len() as int)) == counted(f, v),
    decreases v.len(),
{
    if v.len() > 0 {
        let t = v.drop_last();
        law_summed(h, f, t);
        lemma_summed_front(h, v, t, t.len() as int);
        let s = summed(h, t, t.len() as int);
        assert(f(h(ReportOp::Add(s, v.last()))) == f(s) + f(v.last()));
    }
}

proof fn lemma_summed_front(h: spec_fn(ReportOp) -> Scalar, v: Seq<Scalar>, t: Seq<Scalar>, n: int)
    requires
        n <= t.len() <= v.len(),
        forall|i: int| 0 <= i < t.len() ==> t[i] == v[i],
    ensures
        summed(h, v, n) == summed(h, t, n),
    decreases n,
{
    if n > 0 {
        lemma_summed_front(h, v, t, n - 1);
    }
}

/// The mean is the sum shared out among as many as there are.
pub proof fn law_mean(h: spec_fn(ReportOp) -> Scalar, v: Seq<Scalar>)
    ensures
        mean_of(h, v) == h(ReportOp::Over { sum: summed(h, v, v.len() as int), n: v.len() as usize }),
{
}

/// Of the frames in order, the median stands in the middle and the longest at
/// the end; rates are those of the mean, the median and the ninety-fifth
/// percentile, each taken as no less than a hundredth of a millisecond.
pub proof fn law_frame_figures(h: spec_fn(ReportOp) -> Scalar, fs: Seq<FrameView>, k: int)
    requires
        0 <= k < fs.len(),
    ensures
        ({
            let s = frame_figures(h, fs);
            let n = fs.len() as int;
            let floor = Scalar { bits: 0x3C23_D70A };
            &&& rising(totals(fs)).len() == n
            &&& s.p50 == rising(totals(fs))[n / 2]
            &&& s.p95 == rising(totals(fs))[(19 * (n - 1) + 10) / 20]
            &&& !ahead_of(s.max, fs[k].total_ms)
            &&& totals(fs).contains(s.max)
            &&& s.avg == h(ReportOp::Over { sum: summed(h, rising(totals(fs)), n), n: n as usize })
            &&& s.fps_avg == h(ReportOp::Rate(larger(s.avg, floor)))
            &&& s.fps_p50 == h(ReportOp::Rate(larger(s.p50, floor)))
            &&& s.fps_p95 == h(ReportOp::Rate(larger(s.p95, floor)))
        }),
{
    let v = totals(fs);
    law_longest(v, k);
    assert(v[k] == fs[k].total_ms);
}

/// The same of a zone, over what it took in each frame; its share is that of its
/// mean in the mean of the frames.
pub proof fn law_zone_figures(h: spec_fn(ReportOp) -> Scalar, fs: Seq<FrameView>, i: int, k: int)
    requires
        0 <= i < 20,
        0 <= k < fs.len(),
    ensures
        zone_figures(h, fs).len() == 20,
        ({
            let s = zone_figures(h, fs)[i];
            let v = zone_times(fs, i);
            let n = fs.len() as int;
            &&& v.len() == n && v[k] == fs[k].zones[i]
            &&& s.p50 == rising(v)[n / 2]
            &&& s.p95 == rising(v)[(19 * (n - 1) + 10) / 20]
            &&& !ahead_of(s.max, fs[k].zones[i])
            &&& v.contains(s.max)
            &&& s.avg == h(ReportOp::Over { sum: summed(h, rising(v), n), n: n as usize })
            &&& s.share == h(
                ReportOp::Share {
                    part: s.avg,
                    whole: larger(frame_figures(h, fs).avg, Scalar { bits: 0x3C23_D70A }),
                },
            )
        }),
{
    law_longest(zone_times(fs, i), k);
}

/// A zone is left out where its mean is below five thousandths of a millisecond
/// and its longest below five hundredths; it is worth a look from a share of
/// three percent on.
pub proof fn law_thresholds(z: ZoneStats)
    ensures
        negligible(z) <==> less_than(z.avg, Scalar { bits: 0x3BA3_D70A }) && less_than(
            z.max,
            Scalar { bits: 0x3D4C_CCCD },
        ),
        weighty(z) <==> !less_than(z.share, Scalar { bits: 0x4040_0000 }),
{
}

/// A ring of frames holds six hundred at most, the newest last; it drops the
/// oldest and no other.
pub proof fn law_kept(fs: Seq<FrameView>, f: FrameView, i: int)
    requires
        fs.len() <= 600,
    ensures
        kept(fs, f).len() <= 600,
        kept(fs, f).last() == f,
        fs.len() < 600 && 0 <= i < fs.len() ==> kept(fs, f).len() == fs.len() + 1 && kept(fs, f)[i] == fs[i],
        fs.len() == 600 && 0 < i < 600 ==> kept(fs, f)[i - 1] == fs[i],
{
}

/// Zones have places of their own and go by names of their own order.
pub proof fn law_zone_order(z: Zone, i: int)
    ensures
        0 <= z.index_of() < 20,
        Zone::order()[z.index_of()] == z,
        0 <= i < 20 ==> Zone::order()[i].index_of() == i,
{
}

/// What is filled up begins with what it was, is wide enough, no wider than it
/// has to be, and ends in blanks.
pub proof fn law_padded(s: Seq<char>, width: nat, i: int)
    ensures
        padded(s, width).len() == (if s.len() >= width {
            s.len()
        } else {
            width
        }),
        0 <= i < s.len() ==> padded(s, width)[i] == s[i],
        s.len() <= i < width ==> padded(s, width)[i] == ' ',
{
}

proof fn lemma_longer(part: Seq<char>, front: Seq<char>, whole: Seq<char>, back: Seq<char>)
    requires
        stands_in(part, whole),
    ensures
        stands_in(part, front + whole + back),
{
    let (a, b) = choose|a: Seq<char>, b: Seq<char>| whole == #[trigger] (a + part + b);
    assert(front + whole + back =~= (front + a) + part + (b + back));
}

proof fn lemma_zone_stands(
    m: spec_fn(NumberStyle, Scalar) -> Seq<char>,
    zs: Seq<ZoneStats>,
    order: Seq<int>,
    k: int,
    j: int,
)
    requires
        0 <= j < k,
        !negligible(zs[order[j]]),
    ensures
        stands_in(zone_line(m, order[j], zs[order[j]]), zones_text(m, zs, order, k)),
    decreases k,
{
    let e = Seq::<char>::empty();
    let front = zones_text(m, zs, order, k - 1);
    let i = order[k - 1];
    if j == k - 1 {
        let line = zone_line(m, i, zs[i]);
        assert(front + line =~= front + line + e);
        assert(stands_in(line, front + line));
    } else {
        lemma_zone_stands(m, zs, order, k - 1, j);
        let part = zone_line(m, order[j], zs[order[j]]);
        if !negligible(zs[i]) {
            lemma_longer(part, e, front, zone_line(m, i, zs[i]));
            assert(e + front + zone_line(m, i, zs[i]) =~= front + zone_line(m, i, zs[i]));
        }
    }
}

proof fn lemma_look_stands(zs: Seq<ZoneStats>, order: Seq<int>, k: int, j: int)
    requires
        0 <= j < k,
        weighty(zs[order[j]]),
    ensures
        stands_in(look_line(order[j]), looks_text(zs, order, k)),
    decreases k,
{
    let e = Seq::<char>::empty();
    let front = looks_text(zs, order, k - 1);
    let i = order[k - 1];
    if j == k - 1 {
        let line = look_line(i);
        assert(front + line =~= front + line + e);
        assert(stands_in(line, front + line));
    } else {
        lemma_look_stands(zs, order, k - 1, j);
        if weighty(zs[i]) {
            lemma_longer(look_line(order[j]), e, front, look_line(i));
            assert(e + front + look_line(i) =~= front + look_line(i));
        }
    }
}

proof fn lemma_frame_stands(
    m: spec_fn(NumberStyle, Scalar) -> Seq<char>,
    fs: Seq<FrameView>,
    order: Seq<int>,
    k: int,
    j: int,
)
    requires
        0 <= j < k,
    ensures
        stands_in(frame_line(m, order[j], fs[order[j]]), frames_text(m, fs, order, k)),
    decreases k,
{
    let e = Seq::<char>::empty();
    let front = frames_text(m, fs, order, k - 1);
    let line = frame_line(m, order[k - 1], fs[order[k - 1]]);
    if j == k - 1 {
        assert(front + line =~= front + line + e);
        assert(stands_in(line, front + line));
    } else {
        lemma_frame_stands(m, fs, order, k - 1, j);
        lemma_longer(frame_line(m, order[j], fs[order[j]]), e, front, line);
        assert(e + front + line =~= front + line);
    }
}

/// A report has the line of every zone that is not left out, and where to look
/// for every zone that is worth it.
pub proof fn law_report_zones(
    m: spec_fn(NumberStyle, Scalar) -> Seq<char>,
    fs: Seq<FrameView>,
    extra: Seq<char>,
    s: FrameStats,
    zs: Seq<ZoneStats>,
    i: int,
)
    requires
        fs.len() > 0,
        zs.len() == 20,
        0 <= i < 20,
    ensures
        !negligible(zs[i]) ==> stands_in(
            "  "@ + padded(Zone::order()[i].name_of(), 22) + "  "@ + m(NumberStyle::Column, zs[i].avg) + " "@ + m(
                NumberStyle::Column,
                zs[i].p50,
            ) + " "@ + m(NumberStyle::Column, zs[i].p95) + " "@ + m(NumberStyle::Column, zs[i].max) + "  "@ + m(
                NumberStyle::Share,
                zs[i].share,
            ) + "%\n"@,
            report_text(m, fs, extra, s, zs),
        ),
        weighty(zs[i]) ==> stands_in(
            "  "@ + padded(Zone::order()[i].name_of(), 22) + "  "@ + Zone::order()[i].look_of() + "\n"@,
            report_text(m, fs, extra, s, zs),
        ),
{
    let keys = avgs(zs);
    let o = ranked(keys, Ranking::TotalFalling, 20);
    law_ranked_places(keys, Ranking::TotalFalling, 20);
    assert(o.contains(i));
    let j = choose|j: int| 0 <= j < o.len() && o[j] == i;
    let worst = ranked(totals(fs), Ranking::TotalFalling, fs.len() as int);
    let front = head_text(fs.len(), extra) + stats_text(m, s)
        + "\nzones (ms)                    avg    p50    p95    max   %frame\n"@;
    let rows = zones_text(m, zs, o, 20);
    let looks = looks_text(zs, o, 20);
    let mid = "\nlook (share >= 3%)\n"@;
    let back = "\nworst frames (ms, top 3 zones)\n"@ + frames_text(m, fs, worst, listed(fs.len()))
        + "\nread: large `swapchain` = waiting on GPU/vsync, not CPU. `gpu_scene` is CPU encode of the 3D pass (inside mega-render).\n"@;
    let text = report_text(m, fs, extra, s, zs);
    assert(text =~= front + rows + (mid + looks + back));
    assert(text =~= (front + rows + mid) + looks + back);
    if !negligible(zs[i]) {
        lemma_zone_stands(m, zs, o, 20, j);
        lemma_longer(zone_line(m, i, zs[i]), front, rows, mid + looks + back);
    }
    if weighty(zs[i]) {
        lemma_look_stands(zs, o, 20, j);
        lemma_longer(look_line(i), front + rows + mid, looks, back);
    }
}

/// A report lists eight frames, or all where there are fewer: whatever frame is
/// left out, none that is listed comes behind it.
pub proof fn law_report_worst(
    m: spec_fn(NumberStyle, Scalar) -> Seq<char>,
    fs: Seq<FrameView>,
    extra: Seq<char>,
    s: FrameStats,
    zs: Seq<ZoneStats>,
    j: int,
    k: int,
)
    requires
        0 <= j < fs.len(),
        j < 8,
        j <= k < fs.len(),
    ensures
        ({
            let worst = ranked(totals(fs), Ranking::TotalFalling, fs.len() as int);
            &&& 0 <= worst[j] < fs.len()
            &&& !ahead_of(fs[worst[j]].total_ms, fs[worst[k]].total_ms)
            &&& stands_in(frame_line(m, worst[j], fs[worst[j]]), report_text(m, fs, extra, s, zs))
        }),
{
    let keys = totals(fs);
    let n = fs.len() as int;
    let worst = ranked(keys, Ranking::TotalFalling, n);
    law_ranked_places(keys, Ranking::TotalFalling, n);
    law_ranked_order(keys, Ranking::TotalFalling, n);
    assert(worst.contains(worst[j]));
    assert(worst.contains(worst[k]));
    let by_avg = ranked(avgs(zs), Ranking::TotalFalling, 20);
    let front = head_text(fs.len(), extra) + stats_text(m, s)
        + "\nzones (ms)                    avg    p50    p95    max   %frame\n"@ + zones_text(m, zs, by_avg, 20)
        + "\nlook (share >= 3%)\n"@ + looks_text(zs, by_avg, 20) + "\nworst frames (ms, top 3 zones)\n"@;
    let list = frames_text(m, fs, worst, listed(fs.len()));
    let back =
        "\nread: large `swapchain` = waiting on GPU/vsync, not CPU. `gpu_scene` is CPU encode of the 3D pass (inside mega-render).\n"@;
    assert(report_text(m, fs, extra, s, zs) =~= front + list + back);
    lemma_frame_stands(m, fs, worst, listed(fs.len()), j);
    lemma_longer(frame_line(m, worst[j], fs[worst[j]]), front, list, back);
}

/// A report begins with how many frames there are, and what else was given.
pub proof fn law_report_head(n: nat, extra: Seq<char>)
    ensures
        extra.len() > 0 ==> head_text(n, extra) == "model-rig CPU profile\nframes="@ + decimal_of(n)
            + " (ring cap 600)\n"@ + extra + "\n"@,
        extra.len() == 0 ==> head_text(n, extra) == "model-rig CPU profile\nframes="@ + decimal_of(n)
            + " (ring cap 600)\n"@,
{
    assert(head_text(n, Seq::empty()) =~= "model-rig CPU profile\nframes="@ + decimal_of(n) + " (ring cap 600)\n"@);
    if extra.len() == 0 {
        assert(extra =~= Seq::empty());
    } else {
        assert(head_text(n, extra) =~= "model-rig CPU profile\nframes="@ + decimal_of(n) + " (ring cap 600)\n"@
            + extra + "\n"@);
    }
}

/// The line of a frame names the three zones that took longest, longest first,
/// each with its time.
pub proof fn law_frame_line(m: spec_fn(NumberStyle, Scalar) -> Seq<char>, i: int, f: FrameView, k: int)
    requires
        f.zones.len() == 20,
        0 <= k < 20,
    ensures
        ({
            let o = ranked(f.zones, Ranking::TotalFalling, 20);
            &&& 0 <= o[0] < 20 && 0 <= o[1] < 20 && 0 <= o[2] < 20
            &&& !ahead_of(f.zones[o[0]], f.zones[o[1]]) && !ahead_of(f.zones[o[1]], f.zones[o[2]])
            &&& k > 2 ==> !ahead_of(f.zones[o[2]], f.zones[o[k]])
            &&& frame_line(m, i, f) == "  #"@ + padded(decimal_of(i as nat), 3) + " "@ + m(
                NumberStyle::Column,
                f.total_ms,
            ) + "  "@ + (Zone::order()[o[0]].name_of() + "="@ + m(NumberStyle::Cents, f.zones[o[0]]) + "  "@
                + Zone::order()[o[1]].name_of() + "="@ + m(NumberStyle::Cents, f.zones[o[1]]) + "  "@
                + Zone::order()[o[2]].name_of() + "="@ + m(NumberStyle::Cents, f.zones[o[2]])) + "\n"@
        }),
{
    let o = ranked(f.zones, Ranking::TotalFalling, 20);
    law_ranked_places(f.zones, Ranking::TotalFalling, 20);
    law_ranked_order(f.zones, Ranking::TotalFalling, 20);
    assert(o.contains(o[0]) && o.contains(o[1]) && o.contains(o[2]));
    reveal_with_fuel(top_zones, 4);
    assert(top_zones(m, f.zones, o, 3) =~= Zone::order()[o[0]].name_of() + "="@ + m(
        NumberStyle::Cents,
        f.zones[o[0]],
    ) + "  "@ + Zone::order()[o[1]].name_of() + "="@ + m(NumberStyle::Cents, f.zones[o[1]]) + "  "@
        + Zone::order()[o[2]].name_of() + "="@ + m(NumberStyle::Cents, f.zones[o[2]]));
}

/// A report gives each figure of the frames under its name.
pub proof fn law_report_stats(m: spec_fn(NumberStyle, Scalar) -> Seq<char>, s: FrameStats)
    ensures
        ({
            let times = ("\nframe_ms  avg="@ + m(NumberStyle::Cents, s.avg)) + ("  p50="@ + m(NumberStyle::Cents, s.p50))
                + ("  p95="@ + m(NumberStyle::Cents, s.p95)) + ("  max="@ + m(NumberStyle::Cents, s.max));
            let rates = ("\nfps_est   avg="@ + m(NumberStyle::Whole, s.fps_avg)) + ("  p50="@ + m(
                NumberStyle::Whole,
                s.fps_p50,
            )) + ("  p95_slow="@ + m(NumberStyle::Whole, s.fps_p95));
            stats_text(m, s) == times + rates + "\n"@
        }),
{
    let times = ("\nframe_ms  avg="@ + m(NumberStyle::Cents, s.avg)) + ("  p50="@ + m(NumberStyle::Cents, s.p50)) + (
    "  p95="@ + m(NumberStyle::Cents, s.p95)) + ("  max="@ + m(NumberStyle::Cents, s.max));
    let rates = ("\nfps_est   avg="@ + m(NumberStyle::Whole, s.fps_avg)) + ("  p50="@ + m(
        NumberStyle::Whole,
        s.fps_p50,
    )) + ("  p95_slow="@ + m(NumberStyle::Whole, s.fps_p95));
    assert(stats_text(m, s) =~= times + rates + "\n"@);
}

/// No two zones go by one name.
pub proof fn law_zone_names(a: Zone, b: Zone)
    ensures
        a.name_of() == b.name_of() ==> a == b,
{
    reveal_strlit("update");
    reveal_strlit("ui_build");
    reveal_strlit("ui_end");
    reveal_strlit("tools");
    reveal_strlit("drivers_pre_ik");
    reveal_strlit("ik");
    reveal_strlit("soft_chains");
    reveal_strlit("drivers_post_ik");
    reveal_strlit("dbg_grid");
    reveal_strlit("dbg_skeleton");
    reveal_strlit("dbg_helpers");
    reveal_strlit("dbg_gizmo");
    reveal_strlit("hud");
    reveal_strlit("vp_resize");
    reveal_strlit("gpu_sync");
    reveal_strlit("gpu_scene");
    reveal_strlit("gpu_atlas");
    reveal_strlit("swapchain");
    reveal_strlit("ui_encode");
    reveal_strlit("present");
    if a.name_of() == b.name_of() {
        let s = a.name_of();
        let t = b.name_of();
        assert(s.len() == t.len());
        assert(s[0] == t[0] && s[1] == t[1]);
        assert(s.len() > 5 ==> s[5] == t[5]);
    }
}

} // verus!
