//! Cheap per-frame CPU zones: the last frames are kept, and a text report tells
//! where their time went. The host reads the clock.

use vstd::prelude::*;
use crate::geom::{Scalar, BITS_ZERO};
use crate::order::{less_than, BITS_0_05};
use crate::ranking::{places, rank, ranked, rising, Ranking};
use crate::text::{chars_of, decimal_of, string_of};

verus! {

/// How many frames are kept.
pub const CAP: usize = 600;

/// How many zones a frame is divided into.
pub const ZONES: usize = 20;

/// Bit pattern of `0.005`.
pub const BITS_0_005: u32 = 0x3BA3_D70A;

/// Bit pattern of `3.0`.
pub const BITS_3: u32 = 0x4040_0000;

#[derive(Clone, Copy, Debug, PartialEq, Eq, Structural)]
pub enum Zone {
    Update,
    UiBuild,
    UiEnd,
    Tools,
    DriversPreIk,
    Ik,
    Soft,
    DriversPostIk,
    DbgGrid,
    DbgSkeleton,
    DbgHelpers,
    DbgGizmo,
    Hud,
    VpResize,
    GpuSync,
    GpuScene,
    GpuAtlas,
    Swapchain,
    UiEncode,
    Present,
}

impl Zone {
    /// All zones, in the order in which a frame passes through them.
    pub open spec fn order() -> Seq<Zone> {
        seq![
            Zone::Update,
            Zone::UiBuild,
            Zone::UiEnd,
            Zone::Tools,
            Zone::DriversPreIk,
            Zone::Ik,
            Zone::Soft,
            Zone::DriversPostIk,
            Zone::DbgGrid,
            Zone::DbgSkeleton,
            Zone::DbgHelpers,
            Zone::DbgGizmo,
            Zone::Hud,
            Zone::VpResize,
            Zone::GpuSync,
            Zone::GpuScene,
            Zone::GpuAtlas,
            Zone::Swapchain,
            Zone::UiEncode,
            Zone::Present,
        ]
    }

    pub fn all() -> (r: [Zone; 20])
        ensures
            r@ == Self::order(),
    {
        [
            Zone::Update,
            Zone::UiBuild,
            Zone::UiEnd,
            Zone::Tools,
            Zone::DriversPreIk,
            Zone::Ik,
            Zone::Soft,
            Zone::DriversPostIk,
            Zone::DbgGrid,
            Zone::DbgSkeleton,
            Zone::DbgHelpers,
            Zone::DbgGizmo,
            Zone::Hud,
            Zone::VpResize,
            Zone::GpuSync,
            Zone::GpuScene,
            Zone::GpuAtlas,
            Zone::Swapchain,
            Zone::UiEncode,
            Zone::Present,
        ]
    }

    pub open spec fn index_of(self) -> int {
        match self {
            Zone::Update => 0,
            Zone::UiBuild => 1,
            Zone::UiEnd => 2,
            Zone::Tools => 3,
            Zone::DriversPreIk => 4,
            Zone::Ik => 5,
            Zone::Soft => 6,
            Zone::DriversPostIk => 7,
            Zone::DbgGrid => 8,
            Zone::DbgSkeleton => 9,
            Zone::DbgHelpers => 10,
            Zone::DbgGizmo => 11,
            Zone::Hud => 12,
            Zone::VpResize => 13,
            Zone::GpuSync => 14,
            Zone::GpuScene => 15,
            Zone::GpuAtlas => 16,
            Zone::Swapchain => 17,
            Zone::UiEncode => 18,
            Zone::Present => 19,
        }
    }

    /// Place of the zone in a frame.
    pub fn index(self) -> (r: usize)
        ensures
            r == self.index_of(),
            r < ZONES,
    {
        match self {
            Zone::Update => 0,
            Zone::UiBuild => 1,
            Zone::UiEnd => 2,
            Zone::Tools => 3,
            Zone::DriversPreIk => 4,
            Zone::Ik => 5,
            Zone::Soft => 6,
            Zone::DriversPostIk => 7,
            Zone::DbgGrid => 8,
            Zone::DbgSkeleton => 9,
            Zone::DbgHelpers => 10,
            Zone::DbgGizmo => 11,
            Zone::Hud => 12,
            Zone::VpResize => 13,
            Zone::GpuSync => 14,
            Zone::GpuScene => 15,
            Zone::GpuAtlas => 16,
            Zone::Swapchain => 17,
            Zone::UiEncode => 18,
            Zone::Present => 19,
        }
    }

    pub open spec fn name_of(self) -> Seq<char> {
        match self {
            Zone::Update => "update"@,
            Zone::UiBuild => "ui_build"@,
            Zone::UiEnd => "ui_end"@,
            Zone::Tools => "tools"@,
            Zone::DriversPreIk => "drivers_pre_ik"@,
            Zone::Ik => "ik"@,
            Zone::Soft => "soft_chains"@,
            Zone::DriversPostIk => "drivers_post_ik"@,
            Zone::DbgGrid => "dbg_grid"@,
            Zone::DbgSkeleton => "dbg_skeleton"@,
            Zone::DbgHelpers => "dbg_helpers"@,
            Zone::DbgGizmo => "dbg_gizmo"@,
            Zone::Hud => "hud"@,
            Zone::VpResize => "vp_resize"@,
            Zone::GpuSync => "gpu_sync"@,
            Zone::GpuScene => "gpu_scene"@,
            Zone::GpuAtlas => "gpu_atlas"@,
            Zone::Swapchain => "swapchain"@,
            Zone::UiEncode => "ui_encode"@,
            Zone::Present => "present"@,
        }
    }

    /// What reports call the zone.
    pub fn name(self) -> (r: &'static str)
        ensures
            r@ == self.name_of(),
    {
        match self {
            Zone::Update => "update",
            Zone::UiBuild => "ui_build",
            Zone::UiEnd => "ui_end",
            Zone::Tools => "tools",
            Zone::DriversPreIk => "drivers_pre_ik",
            Zone::Ik => "ik",
            Zone::Soft => "soft_chains",
            Zone::DriversPostIk => "drivers_post_ik",
            Zone::DbgGrid => "dbg_grid",
            Zone::DbgSkeleton => "dbg_skeleton",
            Zone::DbgHelpers => "dbg_helpers",
            Zone::DbgGizmo => "dbg_gizmo",
            Zone::Hud => "hud",
            Zone::VpResize => "vp_resize",
            Zone::GpuSync => "gpu_sync",
            Zone::GpuScene => "gpu_scene",
            Zone::GpuAtlas => "gpu_atlas",
            Zone::Swapchain => "swapchain",
            Zone::UiEncode => "ui_encode",
            Zone::Present => "present",
        }
    }

    pub open spec fn look_of(self) -> Seq<char> {
        match self {
            Zone::Update => "framework: poll_loads / camera / orbit"@,
            Zone::UiBuild => "app.rs build_ui — dock, panels, widgets"@,
            Zone::UiEnd => "mega-ui Ui::end_frame — layout + tessellate"@,
            Zone::Tools => "app.rs handle_tools — gizmo / pick / sculpt drag"@,
            Zone::DriversPreIk => "driver.rs evaluate_drivers PreIk"@,
            Zone::Ik => "ik_chain.rs evaluate_ik_chains"@,
            Zone::Soft => "soft_chain.rs evaluate_soft_chains"@,
            Zone::DriversPostIk => "driver.rs evaluate_drivers PostIk"@,
            Zone::DbgGrid => "framework: scene.debug.grid"@,
            Zone::DbgSkeleton => "rig.rs draw_rig_debug — bone lines/points"@,
            Zone::DbgHelpers => "ik/soft/weight overlays + brush cursor"@,
            Zone::DbgGizmo => "gizmo.rs rotate/translate draw"@,
            Zone::Hud => "view_gizmo + scene.hud"@,
            Zone::VpResize => "scene_target.resize + visualizer.ensure_target"@,
            Zone::GpuSync => "mega-render WgpuVisualizer::sync"@,
            Zone::GpuScene => "mega-render WgpuVisualizer::render_to (encode 3D)"@,
            Zone::GpuAtlas => "mega-ui UiRenderer::sync_atlases"@,
            Zone::Swapchain => "wgpu get_current_texture — vsync/GPU wait if large"@,
            Zone::UiEncode => "mega-ui UiRenderer::draw swapchain pass"@,
            Zone::Present => "queue.submit + present"@,
        }
    }

    /// Where to look when the zone is slow.
    pub fn look(self) -> (r: &'static str)
        ensures
            r@ == self.look_of(),
    {
        match self {
            Zone::Update => "framework: poll_loads / camera / orbit",
            Zone::UiBuild => "app.rs build_ui — dock, panels, widgets",
            Zone::UiEnd => "mega-ui Ui::end_frame — layout + tessellate",
            Zone::Tools => "app.rs handle_tools — gizmo / pick / sculpt drag",
            Zone::DriversPreIk => "driver.rs evaluate_drivers PreIk",
            Zone::Ik => "ik_chain.rs evaluate_ik_chains",
            Zone::Soft => "soft_chain.rs evaluate_soft_chains",
            Zone::DriversPostIk => "driver.rs evaluate_drivers PostIk",
            Zone::DbgGrid => "framework: scene.debug.grid",
            Zone::DbgSkeleton => "rig.rs draw_rig_debug — bone lines/points",
            Zone::DbgHelpers => "ik/soft/weight overlays + brush cursor",
            Zone::DbgGizmo => "gizmo.rs rotate/translate draw",
            Zone::Hud => "view_gizmo + scene.hud",
            Zone::VpResize => "scene_target.resize + visualizer.ensure_target",
            Zone::GpuSync => "mega-render WgpuVisualizer::sync",
            Zone::GpuScene => "mega-render WgpuVisualizer::render_to (encode 3D)",
            Zone::GpuAtlas => "mega-ui UiRenderer::sync_atlases",
            Zone::Swapchain => "wgpu get_current_texture — vsync/GPU wait if large",
            Zone::UiEncode => "mega-ui UiRenderer::draw swapchain pass",
            Zone::Present => "queue.submit + present",
        }
    }
}

/// Every zone stands at its own place.
pub proof fn law_zone_index(z: Zone)
    ensures
        0 <= z.index_of() < ZONES,
        Zone::order()[z.index_of()] == z,
        Zone::order().len() == ZONES,
{
}

/// One frame: its length and that of its zones, in milliseconds.
pub struct Frame {
    pub total_ms: Scalar,
    pub zones: [Scalar; 20],
}

/// What a frame holds.
#[verifier::ext_equal]
pub struct FrameView {
    pub total_ms: Scalar,
    pub zones: Seq<Scalar>,
}

impl View for Frame {
    type V = FrameView;

    open spec fn view(&self) -> FrameView {
        FrameView { total_ms: self.total_ms, zones: self.zones@ }
    }
}

pub open spec fn frames_view(s: Seq<Frame>) -> Seq<FrameView> {
    Seq::new(s.len(), |i: int| s[i]@)
}

/// The last frames, oldest first.
pub struct CpuProfile {
    pub frames: Vec<Frame>,
}

/// The zones of the frame that is going on.
pub struct FrameClock {
    pub zones: [Scalar; 20],
}

/// `frames` after one more frame: the oldest goes where there is no room.
pub open spec fn kept(frames: Seq<FrameView>, f: FrameView) -> Seq<FrameView> {
    if frames.len() == CAP {
        frames.skip(1).push(f)
    } else {
        frames.push(f)
    }
}

/// What is kept after all of `log`, one frame after the other.
pub open spec fn kept_of(log: Seq<FrameView>) -> Seq<FrameView>
    decreases log.len(),
{
    if log.len() == 0 {
        Seq::empty()
    } else {
        kept(kept_of(log.drop_last()), log.last())
    }
}

/// What is kept are the last frames, as many as there is room for.
pub proof fn law_ring(log: Seq<FrameView>)
    ensures
        log.len() <= CAP ==> kept_of(log) == log,
        log.len() > CAP ==> kept_of(log) == log.skip(log.len() - CAP),
    decreases log.len(),
{
    if log.len() > 0 {
        let t = log.drop_last();
        law_ring(t);
        if log.len() <= CAP {
            assert(t.push(log.last()) =~= log);
        } else if t.len() == CAP {
            assert(t.skip(1).push(log.last()) =~= log.skip(1));
        } else {
            assert(t.skip(t.len() - CAP).skip(1).push(log.last()) =~= log.skip(log.len() - CAP));
        }
    } else {
        assert(kept_of(log) =~= log);
    }
}

/// How a number is written.
#[derive(Clone, Copy, Debug, PartialEq, Eq, Structural)]
pub enum NumberStyle {
    /// No decimals.
    Whole,
    /// Two decimals.
    Cents,
    /// Two decimals, at least six wide.
    Column,
    /// One decimal, at least five wide.
    Share,
}

/// The figures over all frames.
#[derive(Clone, Copy, Debug, PartialEq, Eq, Structural)]
pub struct FrameStats {
    pub avg: Scalar,
    pub p50: Scalar,
    pub p95: Scalar,
    pub max: Scalar,
    pub fps_avg: Scalar,
    pub fps_p50: Scalar,
    pub fps_p95: Scalar,
}

/// The figures of one zone over all frames.
#[derive(Clone, Copy, Debug, PartialEq, Eq, Structural)]
pub struct ZoneStats {
    pub avg: Scalar,
    pub p50: Scalar,
    pub p95: Scalar,
    pub max: Scalar,
    /// Percentage of the frame.
    pub share: Scalar,
}

/// `show` writes numbers as `m` does.
pub open spec fn writes<F: Fn(NumberStyle, Scalar) -> String>(
    show: F,
    m: spec_fn(NumberStyle, Scalar) -> Seq<char>,
) -> bool {
    forall|s: NumberStyle, x: Scalar, t: String|
        #[trigger] call_ensures(show, (s, x), t) ==> t@ == m(s, x)
}

/// `s` filled up with blanks to at least `width`.
pub open spec fn padded(s: Seq<char>, width: nat) -> Seq<char> {
    if s.len() >= width {
        s
    } else {
        s + Seq::new((width - s.len()) as nat, |i: int| ' ')
    }
}

/// `s` filled up with blanks to at least `width`.
pub fn pad(s: &str, width: usize) -> (r: String)
    ensures
        r@ == padded(s@, width as nat),
{
    let mut v = chars_of(s);
    let ghost s0 = s@;
    while v.len() < width
        invariant
            v@.len() >= s0.len(),
            v@ == s0 + Seq::new((v@.len() - s0.len()) as nat, |i: int| ' '),
            s0.len() >= width ==> v@ == s0,
            s0.len() < width ==> v@.len() <= width,
        decreases width - v.len(),
    {
        let ghost o = v@;
        v.push(' ');
        assert(v@ =~= s0 + Seq::new((v@.len() - s0.len()) as nat, |i: int| ' '));
    }
    assert(v@ =~= padded(s0, width as nat));
    string_of(&v)
}

/// A zone too small to report.
pub open spec fn negligible(z: ZoneStats) -> bool {
    less_than(z.avg, Scalar { bits: BITS_0_005 }) && less_than(z.max, Scalar { bits: BITS_0_05 })
}

/// A zone worth a look.
pub open spec fn weighty(z: ZoneStats) -> bool {
    !less_than(z.share, Scalar { bits: BITS_3 })
}

/// The line of zone `i`.
pub open spec fn zone_line(
    m: spec_fn(NumberStyle, Scalar) -> Seq<char>,
    i: int,
    z: ZoneStats,
) -> Seq<char> {
    "  "@ + padded(Zone::order()[i].name_of(), 22) + "  "@ + m(NumberStyle::Column, z.avg) + " "@
        + m(NumberStyle::Column, z.p50) + " "@ + m(NumberStyle::Column, z.p95) + " "@ + m(
        NumberStyle::Column,
        z.max,
    ) + "  "@ + m(NumberStyle::Share, z.share) + "%\n"@
}

/// The lines of the first `k` zones of `order`.
pub open spec fn zones_text(
    m: spec_fn(NumberStyle, Scalar) -> Seq<char>,
    zs: Seq<ZoneStats>,
    order: Seq<int>,
    k: int,
) -> Seq<char>
    decreases k,
{
    if k <= 0 {
        Seq::empty()
    } else {
        let front = zones_text(m, zs, order, k - 1);
        let i = order[k - 1];
        if negligible(zs[i]) {
            front
        } else {
            front + zone_line(m, i, zs[i])
        }
    }
}

/// Where to look for zone `i`.
pub open spec fn look_line(i: int) -> Seq<char> {
    "  "@ + padded(Zone::order()[i].name_of(), 22) + "  "@ + Zone::order()[i].look_of() + "\n"@
}

/// Where to look, for the first `k` zones of `order` that are worth it.
pub open spec fn looks_text(zs: Seq<ZoneStats>, order: Seq<int>, k: int) -> Seq<char>
    decreases k,
{
    if k <= 0 {
        Seq::empty()
    } else {
        let front = looks_text(zs, order, k - 1);
        let i = order[k - 1];
        if weighty(zs[i]) {
            front + look_line(i)
        } else {
            front
        }
    }
}

/// The first `k` zones of a frame, by length.
pub open spec fn top_zones(
    m: spec_fn(NumberStyle, Scalar) -> Seq<char>,
    zones: Seq<Scalar>,
    order: Seq<int>,
    k: int,
) -> Seq<char>
    decreases k,
{
    if k <= 0 {
        Seq::empty()
    } else {
        top_zones(m, zones, order, k - 1) + (if k > 1 {
            "  "@
        } else {
            Seq::empty()
        }) + Zone::order()[order[k - 1]].name_of() + "="@ + m(
            NumberStyle::Cents,
            zones[order[k - 1]],
        )
    }
}

/// The line of frame `i`.
pub open spec fn frame_line(
    m: spec_fn(NumberStyle, Scalar) -> Seq<char>,
    i: int,
    f: FrameView,
) -> Seq<char> {
    "  #"@ + padded(decimal_of(i as nat), 3) + " "@ + m(NumberStyle::Column, f.total_ms) + "  "@
        + top_zones(m, f.zones, ranked(f.zones, Ranking::TotalFalling, ZONES as int), 3) + "\n"@
}

/// The lines of the first `k` frames of `order`.
pub open spec fn frames_text(
    m: spec_fn(NumberStyle, Scalar) -> Seq<char>,
    fs: Seq<FrameView>,
    order: Seq<int>,
    k: int,
) -> Seq<char>
    decreases k,
{
    if k <= 0 {
        Seq::empty()
    } else {
        frames_text(m, fs, order, k - 1) + frame_line(m, order[k - 1], fs[order[k - 1]])
    }
}

/// The beginning of every report.
pub open spec fn head_text(n: nat, extra: Seq<char>) -> Seq<char> {
    "model-rig CPU profile\nframes="@ + decimal_of(n) + " (ring cap 600)\n"@ + (if extra.len() == 0 {
        Seq::empty()
    } else {
        extra + "\n"@
    })
}

/// The lines about frames as a whole.
pub open spec fn stats_text(m: spec_fn(NumberStyle, Scalar) -> Seq<char>, s: FrameStats) -> Seq<
    char,
> {
    "\nframe_ms  avg="@ + m(NumberStyle::Cents, s.avg) + "  p50="@ + m(NumberStyle::Cents, s.p50)
        + "  p95="@ + m(NumberStyle::Cents, s.p95) + "  max="@ + m(NumberStyle::Cents, s.max)
        + "\nfps_est   avg="@ + m(NumberStyle::Whole, s.fps_avg) + "  p50="@ + m(
        NumberStyle::Whole,
        s.fps_p50,
    ) + "  p95_slow="@ + m(NumberStyle::Whole, s.fps_p95) + "\n"@
}

pub open spec fn avgs(zs: Seq<ZoneStats>) -> Seq<Scalar> {
    zs.map_values(|z: ZoneStats| z.avg)
}

pub open spec fn totals(fs: Seq<FrameView>) -> Seq<Scalar> {
    fs.map_values(|f: FrameView| f.total_ms)
}

/// What zone `i` took in each frame.
pub open spec fn zone_times(fs: Seq<FrameView>, i: int) -> Seq<Scalar> {
    fs.map_values(|f: FrameView| f.zones[i])
}

/// How many of the worst frames are listed.
pub open spec fn listed(n: nat) -> int {
    if n < 8 {
        n as int
    } else {
        8
    }
}

/// The whole report.
pub open spec fn report_text(
    m: spec_fn(NumberStyle, Scalar) -> Seq<char>,
    fs: Seq<FrameView>,
    extra: Seq<char>,
    s: FrameStats,
    zs: Seq<ZoneStats>,
) -> Seq<char> {
    if fs.len() == 0 {
        head_text(0, extra) + "no frames yet — run the app a few seconds, then F8\n"@
    } else {
        let by_avg = ranked(avgs(zs), Ranking::TotalFalling, ZONES as int);
        let worst = ranked(totals(fs), Ranking::TotalFalling, fs.len() as int);
        head_text(fs.len(), extra) + stats_text(m, s)
            + "\nzones (ms)                    avg    p50    p95    max   %frame\n"@ + zones_text(
            m,
            zs,
            by_avg,
            ZONES as int,
        ) + "\nlook (share >= 3%)\n"@ + looks_text(zs, by_avg, ZONES as int)
            + "\nworst frames (ms, top 3 zones)\n"@ + frames_text(m, fs, worst, listed(fs.len()))
            + "\nread: large `swapchain` = waiting on GPU/vsync, not CPU. `gpu_scene` is CPU encode of the 3D pass (inside mega-render).\n"@
    }
}

impl FrameClock {
    /// A frame begins: nothing is measured yet.
    pub fn begin() -> (r: FrameClock)
        ensures
            r.zones@ == Seq::new(20, |i: int| Scalar { bits: BITS_ZERO }),
    {
        let z = Scalar { bits: BITS_ZERO };
        let r = FrameClock {
            zones: [z, z, z, z, z, z, z, z, z, z, z, z, z, z, z, z, z, z, z, z],
        };
        assert(r.zones@ =~= Seq::new(20, |i: int| Scalar { bits: BITS_ZERO }));
        r
    }

    /// Zone `zone` took `ms`.
    pub fn lap(&mut self, zone: Zone, ms: Scalar)
        ensures
            final(self).zones@ == old(self).zones@.update(zone.index_of(), ms),
    {
        let i = zone.index();
        self.zones[i] = ms;
    }

    /// The frame took `total_ms` in all.
    pub fn finish(self, profile: &mut CpuProfile, total_ms: Scalar)
        requires
            old(profile).wf(),
        ensures
            final(profile).wf(),
            final(profile)@ == kept(old(profile)@, FrameView { total_ms, zones: self.zones@ }),
    {
        profile.push(Frame { total_ms, zones: self.zones });
    }
}

impl View for CpuProfile {
    type V = Seq<FrameView>;

    open spec fn view(&self) -> Seq<FrameView> {
        frames_view(self.frames@)
    }
}

impl CpuProfile {
    pub open spec fn wf(self) -> bool {
        self.frames@.len() <= CAP
    }

    pub fn new() -> (r: Self)
        ensures
            r.wf(),
            r@ == Seq::<FrameView>::empty(),
    {
        let r = CpuProfile { frames: Vec::new() };
        assert(r@ =~= Seq::empty());
        r
    }

    pub fn clear(&mut self)
        ensures
            final(self).wf(),
            final(self)@ == Seq::<FrameView>::empty(),
    {
        self.frames.clear();
        assert(self@ =~= Seq::empty());
    }

    /// Keeps one more frame.
    pub fn push(&mut self, frame: Frame)
        requires
            old(self).wf(),
        ensures
            final(self).wf(),
            final(self)@ == kept(old(self)@, frame@),
    {
        let ghost o = self@;
        if self.frames.len() == CAP {
            let _old = self.frames.remove(0);
            assert(self@ =~= o.skip(1));
        }
        let ghost q = self@;
        self.frames.push(frame);
        assert(self@ =~= q.push(frame@));
    }

    /// The frame lengths, shortest first.
    pub fn sorted_totals(&self) -> (r: Vec<Scalar>)
        ensures
            r@ == rising(totals(self@)),
            r@.len() == self@.len(),
    {
        let keys = self.total_list();
        sorted_of(&keys)
    }

    /// The lengths of zone `zone`, shortest first.
    pub fn sorted_zone(&self, zone: Zone) -> (r: Vec<Scalar>)
        ensures
            r@ == rising(zone_times(self@, zone.index_of())),
            r@.len() == self@.len(),
    {
        let z = zone.index();
        let ghost want = zone_times(self@, zone.index_of());
        let mut keys: Vec<Scalar> = Vec::new();
        let mut i: usize = 0;
        while i < self.frames.len()
            invariant
                i <= self.frames@.len(),
                z == zone.index_of(),
                z < 20,
                want == zone_times(self@, zone.index_of()),
                keys@ == want.take(i as int),
            decreases self.frames.len() - i,
        {
            assert(self@[i as int] == self.frames@[i as int]@);
            keys.push(self.frames[i].zones[z]);
            assert(want.take(i as int + 1) =~= want.take(i as int).push(want[i as int]));
            i = i + 1;
        }
        assert(want.take(i as int) =~= want);
        sorted_of(&keys)
    }

    pub(crate) fn total_list(&self) -> (r: Vec<Scalar>)
        ensures
            r@ == totals(self@),
    {
        let ghost want = totals(self@);
        let mut keys: Vec<Scalar> = Vec::new();
        let mut i: usize = 0;
        while i < self.frames.len()
            invariant
                i <= self.frames@.len(),
                want == totals(self@),
                keys@ == want.take(i as int),
            decreases self.frames.len() - i,
        {
            assert(self@[i as int] == self.frames@[i as int]@);
            keys.push(self.frames[i].total_ms);
            assert(want.take(i as int + 1) =~= want.take(i as int).push(want[i as int]));
            i = i + 1;
        }
        assert(want.take(i as int) =~= want);
        keys
    }
}

/// The numbers of `keys`, smallest first.
fn sorted_of(keys: &Vec<Scalar>) -> (r: Vec<Scalar>)
    ensures
        r@ == rising(keys@),
        r@.len() == keys@.len(),
{
    let order = rank(keys, Ranking::TotalRising);
    let ghost want = rising(keys@);
    let mut out: Vec<Scalar> = Vec::new();
    let mut i: usize = 0;
    while i < order.len()
        invariant
            i <= order@.len(),
            places(order@) == ranked(keys@, Ranking::TotalRising, keys@.len() as int),
            want == rising(keys@),
            forall|j: int| 0 <= j < order@.len() ==> (#[trigger] order@[j]) < keys@.len(),
            want.len() == order@.len() == keys@.len(),
            out@ == want.take(i as int),
        decreases order.len() - i,
    {
        assert(places(order@)[i as int] == order@[i as int]);
        out.push(keys[order[i]]);
        assert(want.take(i as int + 1) =~= want.take(i as int).push(want[i as int]));
        i = i + 1;
    }
    assert(want.take(i as int) =~= want);
    out
}

} // verus!
