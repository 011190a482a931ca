use model_rig::cpu_profile::{
    pad, CpuProfile, Frame, FrameClock, FrameStats, NumberStyle, Zone, ZoneStats, CAP, ZONES,
};
use model_rig::cpu_stats::{pct, ReportOp};
use model_rig::geom::Scalar;

fn f(x: f32) -> Scalar {
    Scalar { bits: x.to_bits() }
}

fn frame(total: f32) -> Frame {
    Frame { total_ms: f(total), zones: [f(0.0); 20] }
}

#[test]
fn zones_stand_at_their_index() {
    let all = Zone::all();
    assert_eq!(all.len(), ZONES);
    for (i, z) in all.into_iter().enumerate() {
        assert_eq!(z.index(), i);
        assert!(!z.name().is_empty());
    }
}

#[test]
fn only_the_latest_frames_are_kept() {
    let mut p = CpuProfile::new();
    for i in 0..CAP + 5 {
        p.push(frame(i as f32));
    }
    assert_eq!(p.frames.len(), CAP);
    assert_eq!(p.frames[0].total_ms, f(5.0));
    assert_eq!(p.frames[CAP - 1].total_ms, f((CAP + 4) as f32));
    p.clear();
    assert!(p.frames.is_empty());
}

#[test]
fn a_clock_fills_a_frame() {
    let mut p = CpuProfile::new();
    let mut c = FrameClock::begin();
    c.lap(Zone::Ik, f(1.5));
    c.lap(Zone::Soft, f(0.5));
    c.finish(&mut p, f(2.5));
    assert_eq!(p.frames.len(), 1);
    assert_eq!(p.frames[0].total_ms, f(2.5));
    assert_eq!(p.frames[0].zones[Zone::Ik.index()], f(1.5));
    assert_eq!(p.frames[0].zones[Zone::Soft.index()], f(0.5));
    assert_eq!(p.frames[0].zones[Zone::Hud.index()], f(0.0));
}

#[test]
fn totals_are_sorted() {
    let mut p = CpuProfile::new();
    for x in [3.0f32, 1.0, 2.0] {
        let mut fr = frame(x);
        fr.zones[Zone::Tools.index()] = f(-x);
        p.push(fr);
    }
    assert_eq!(p.sorted_totals(), vec![f(1.0), f(2.0), f(3.0)]);
    assert_eq!(p.sorted_zone(Zone::Tools), vec![f(-3.0), f(-2.0), f(-1.0)]);
}

#[test]
fn padding_fills_up_to_a_width() {
    assert_eq!(pad("ab", 4), "ab  ");
    assert_eq!(pad("abcdef", 4), "abcdef");
}

fn math(op: ReportOp) -> Scalar {
    let x = |s: Scalar| f32::from_bits(s.bits);
    f(match op {
        ReportOp::Add(a, b) => x(a) + x(b),
        ReportOp::Over { sum, n } => x(sum) / n as f32,
        ReportOp::Rate(ms) => 1000.0 / x(ms),
        ReportOp::Share { part, whole } => 100.0 * x(part) / x(whole),
    })
}

fn show(style: NumberStyle, x: Scalar) -> String {
    let x = f32::from_bits(x.bits);
    match style {
        NumberStyle::Whole => format!("{x:.0}"),
        NumberStyle::Cents => format!("{x:.2}"),
        NumberStyle::Column => format!("{x:6.2}"),
        NumberStyle::Share => format!("{x:5.1}"),
    }
}

/// Frames of 10 and 20 milliseconds, with 4 and 8 of them in the IK zone.
fn two_frames() -> CpuProfile {
    let mut p = CpuProfile::new();
    for x in [20.0f32, 10.0] {
        let mut fr = frame(x);
        fr.zones[Zone::Ik.index()] = f(x * 0.4);
        p.push(fr);
    }
    p
}

#[test]
fn figures_come_from_the_frames() {
    let p = two_frames();
    assert_eq!(
        p.frame_stats(&math),
        FrameStats {
            avg: f(15.0),
            p50: f(20.0),
            p95: f(20.0),
            max: f(20.0),
            fps_avg: f(1000.0 / 15.0),
            fps_p50: f(50.0),
            fps_p95: f(50.0),
        }
    );
    let zones = p.zone_stats(&math);
    assert_eq!(zones.len(), ZONES);
    assert_eq!(
        zones[Zone::Ik.index()],
        ZoneStats { avg: f(6.0), p50: f(8.0), p95: f(8.0), max: f(8.0), share: f(40.0) }
    );
    assert_eq!(zones[Zone::Hud.index()].max, f(0.0));
}

#[test]
fn tiny_frames_have_a_bounded_rate() {
    let mut p = CpuProfile::new();
    p.push(frame(0.0));
    let s = p.frame_stats(&math);
    assert_eq!(s.fps_avg, f(1000.0 / 0.01));
    assert_eq!(s.max, f(0.0));
}

#[test]
fn percentiles_stand_at_the_nearest_place() {
    assert_eq!(pct(&Vec::new(), 50), f(0.0));
    let mut v = Vec::new();
    for n in 1..=CAP {
        v.push(f((n - 1) as f32));
        for (percent, p) in [(50, 0.50f32), (95, 0.95)] {
            let place = ((n - 1) as f32 * p).round() as usize;
            assert_eq!(pct(&v, percent), v[place.min(n - 1)], "{n} {percent}");
        }
    }
}

#[test]
fn a_report_names_the_heavy_zones() {
    let ik = Zone::Ik.name();
    let text = two_frames().format("extra line", &math, &show);
    let expected = format!(
        "model-rig CPU profile\nframes=2 (ring cap 600)\nextra line\n\n\
         frame_ms  avg=15.00  p50=20.00  p95=20.00  max=20.00\n\
         fps_est   avg=67  p50=50  p95_slow=50\n\n\
         zones (ms)                    avg    p50    p95    max   %frame\n  \
         {ik:22}    6.00   8.00   8.00   8.00   40.0%\n\n\
         look (share >= 3%)\n  {ik:22}  {}\n\n\
         worst frames (ms, top 3 zones)\n",
        Zone::Ik.look()
    );
    assert!(text.starts_with(&expected), "{text}");
    let (update, build) = (Zone::Update.name(), Zone::UiBuild.name());
    assert!(text.contains(&format!("  #0    20.00  {ik}=8.00  {update}=0.00  {build}=0.00\n")));
    assert!(text.contains(&format!("  #1    10.00  {ik}=4.00  {update}=0.00  {build}=0.00\n")));
    let none = CpuProfile::new().format("extra line", &math, &show);
    assert_eq!(
        none,
        "model-rig CPU profile\nframes=0 (ring cap 600)\nextra line\n\
         no frames yet — run the app a few seconds, then F8\n"
    );
}
