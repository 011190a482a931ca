//! The viewport tools as a machine: a pointer frame goes in, and out come the
//! next state and what the host is to do or find out before the frame goes on.
//! The host casts rays and turns bones; what follows from the outcome is
//! decided here.

use vstd::prelude::*;
use crate::bones::{has_bone, BoneId};
use crate::geom::{Scalar, Transform, Vec2, Vec3, BITS_ZERO};
use crate::order::{less_than, BITS_0_05};
use crate::rig::{AppMode, BrushKind, MoveMode, RigDocument, RigView, Tool};
use crate::rig_edit::{bone_node, fresh};
use crate::rig_pose::{bone_grown, bone_name};
use crate::rig_select::{picked, reselected};
use crate::scene::{
    has_node, key_handle, lemma_key_handle, node_get, with_local, MeshHandle, MeshView, NodeHandle, NodeView, Scene,
    SceneView,
};
use crate::session::{
    inspecting, selection_status, tellable, AppState, AppView, Drag, DragView, GizmoAxis,
};
use crate::soft_sim::grab_released;
use crate::text::{decimal, decimal_of, join};

verus! {

broadcast use crate::scene::lemma_key_injective;

/// Bit pattern of `5.0`.
pub const BITS_5: u32 = 0x40A0_0000;

/// The pointer in one frame.
#[derive(Clone, Copy, Debug, PartialEq, Eq, Structural)]
pub struct PointerFrame {
    pub pos: Vec2,
    pub pressed: bool,
    pub down: bool,
    pub released: bool,
    pub ctrl: bool,
}

/// What a frame hands to the tools.
#[derive(Clone, Copy, Debug, PartialEq, Eq, Structural)]
pub struct ToolFrame {
    pub pointer: PointerFrame,
    /// The pointer is over a viewport worth the name.
    pub over: bool,
    /// The pointer belongs to a widget.
    pub ui_wants_mouse: bool,
}

/// A shape key, by mesh and place.
#[derive(Clone, Copy, Debug, PartialEq, Eq, Structural)]
pub struct ShapeRef {
    pub mesh: MeshHandle,
    pub index: usize,
}

/// What the host is asked before the frame goes on.
#[derive(Clone, Copy, Debug, PartialEq, Eq, Structural)]
pub enum Ask {
    /// Nothing: the frame is done.
    Done,
    /// A marquee ended; answer with `marquee_clicked` or `marquee_boxed`.
    FinishMarquee { start: Vec2, current: Vec2, additive: bool },
    /// Carry on the brush stroke, then `stroke_applied`.
    Stroke { invert: bool },
    /// Which ring is under the pointer: `hovered`.
    HoverRotate,
    /// Which arrow is under the pointer: `hovered`.
    HoverTranslate,
    /// Turn, move or pull the bones that are dragged, then `drag_applied`.
    DragRotate,
    DragTranslate,
    DragIk,
    DragVerlet,
    /// Move the target of the soft grab; the frame is then done.
    DragSoft,
    /// Begin a stroke, raising the weight of `raise` to one: `stroke_begun`.
    BeginStroke { raise: Option<ShapeRef> },
    /// Which mesh is under the pointer: `mesh_picked`.
    PickMesh,
    /// Which soft particle is under the pointer: `grab_begun`.
    BeginGrab,
    /// Grab a gizmo handle: `rotate_begun`, `ik_begun`, `verlet_begun`, `translate_begun`.
    BeginRotate,
    BeginIk,
    BeginVerlet,
    BeginTranslate,
    /// Make a node for a bone grown from `parent`: `extruded`.
    Extrude { parent: BoneId },
    /// Where the ground is hit, make a node there: `grounded`.
    Ground,
    /// Which bone is under the pointer: `bone_picked`.
    PickBone,
}

/// The gizmo handle that is held in drag `d`.
pub open spec fn axis_of(d: DragView) -> Option<GizmoAxis> {
    match d {
        DragView::Rotate { axis, .. } => Some(axis),
        DragView::Translate { axis, .. } => Some(axis),
        DragView::IkPull { axis, .. } => Some(axis),
        DragView::Verlet { axis, .. } => Some(axis),
        _ => None,
    }
}

/// The bone that drag `d` is about.
pub open spec fn dragged_bone(d: DragView) -> Option<BoneId> {
    match d {
        DragView::Rotate { bone, .. } => Some(bone),
        DragView::Translate { bone, .. } => Some(bone),
        DragView::IkPull { bone, .. } => Some(bone),
        DragView::Verlet { bone, .. } => Some(bone),
        _ => None,
    }
}

/// What the host does while drag `d` goes on.
pub open spec fn drag_ask(d: DragView, ctrl: bool) -> Ask {
    match d {
        DragView::Rotate { .. } => Ask::DragRotate,
        DragView::Translate { .. } => Ask::DragTranslate,
        DragView::IkPull { .. } => Ask::DragIk,
        DragView::Verlet { .. } => Ask::DragVerlet,
        DragView::Sculpt { .. } => Ask::Stroke { invert: ctrl },
        DragView::SoftGrab { .. } => Ask::DragSoft,
        DragView::Marquee { .. } => Ask::Done,
    }
}

/// `k` is the key of one of `bones` that has a node.
pub open spec fn rebinds(nodes: Seq<NodeView>, bones: Seq<BoneId>, k: u64) -> bool {
    bones.contains(BoneId { node: key_handle(k) }) && has_node(nodes, key_handle(k))
}

/// The bind pose after `bones` were bound where they are.
pub open spec fn committed(
    binds: Map<u64, Transform>,
    nodes: Seq<NodeView>,
    bones: Seq<BoneId>,
) -> Map<u64, Transform> {
    Map::new(
        |k: u64| binds.contains_key(k) || rebinds(nodes, bones, k),
        |k: u64|
            if rebinds(nodes, bones, k) {
                (node_get(nodes, key_handle(k))->0).local
            } else {
                binds[k]
            },
    )
}

/// The state once the button is up: no drag any more, in Edit the dragged bones
/// bound where they are, and a soft chain let go.
pub open spec fn let_up(a: AppView) -> AppView {
    AppView {
        drag: None,
        rig: match a.drag {
            Some(DragView::Rotate { bones, .. }) => if a.rig.mode == AppMode::Edit {
                RigView { bind_locals: committed(a.rig.bind_locals, a.scene.nodes, bones), ..a.rig }
            } else {
                a.rig
            },
            Some(DragView::Translate { bones, .. }) => if a.rig.mode == AppMode::Edit {
                RigView { bind_locals: committed(a.rig.bind_locals, a.scene.nodes, bones), ..a.rig }
            } else {
                a.rig
            },
            Some(DragView::SoftGrab { chain_id, .. }) => RigView {
                soft_chains: grab_released(a.rig.soft_chains, chain_id),
                ..a.rig
            },
            _ => a.rig,
        },
        ..a
    }
}

/// A press that starts nothing else: with ctrl a marquee, else a pick.
pub open spec fn clicking(a: AppView, f: ToolFrame) -> (AppView, Ask) {
    if f.pointer.ctrl && a.rig.tool != Tool::AddBone {
        (
            AppView {
                drag: Some(
                    DragView::Marquee {
                        start: f.pointer.pos,
                        current: f.pointer.pos,
                        additive: true,
                    },
                ),
                ..a
            },
            Ask::Done,
        )
    } else {
        (a, Ask::PickBone)
    }
}

/// Weight of shape key `index`; a key without a weight has none.
pub open spec fn weight_of(m: MeshView, index: usize) -> Scalar {
    if index < m.morph_weights.len() {
        m.morph_weights[index as int]
    } else {
        Scalar { bits: BITS_ZERO }
    }
}

/// `m` has handle `h` and hardly shows its shape key `index`.
pub open spec fn faint(m: MeshView, h: MeshHandle, index: usize) -> bool {
    m.handle == h && less_than(weight_of(m, index), Scalar { bits: BITS_0_05 })
}

/// The shape key whose weight is raised before a stroke, so that it shows.
pub open spec fn to_raise(a: AppView) -> Option<ShapeRef> {
    match (a.rig.active_mesh, a.rig.active_shape) {
        (Some(mesh), Some(index)) => if exists|i: int|
            0 <= i < a.scene.meshes.len() && faint(#[trigger] a.scene.meshes[i], mesh, index) {
            Some(ShapeRef { mesh, index })
        } else {
            None
        },
        _ => None,
    }
}

/// A press in the viewport while nothing is dragged.
pub open spec fn pressing(a: AppView, f: ToolFrame) -> (AppView, Ask) {
    if f.ui_wants_mouse || !f.over || !f.pointer.pressed {
        (a, Ask::Done)
    } else if a.rig.mode == AppMode::Shape {
        if a.rig.tool != Tool::Brush {
            (a, Ask::PickMesh)
        } else if a.rig.active_shape is None {
            (AppView { status: "Create / select a shape key first"@, ..a }, Ask::Done)
        } else {
            (a, Ask::BeginStroke { raise: to_raise(a) })
        }
    } else if a.rig.mode == AppMode::Pose && a.rig.tool == Tool::SoftGrab {
        (a, Ask::BeginGrab)
    } else {
        match (a.rig.tool, a.rig.selection) {
            (Tool::Rotate, Some(_)) => (a, Ask::BeginRotate),
            (Tool::Translate, Some(_)) => if a.rig.mode == AppMode::Pose && a.rig.move_mode
                == MoveMode::AutoIk {
                (a, Ask::BeginIk)
            } else if a.rig.mode == AppMode::Pose && a.rig.move_mode == MoveMode::Verlet {
                (a, Ask::BeginVerlet)
            } else {
                (a, Ask::BeginTranslate)
            },
            (Tool::AddBone, Some(parent)) => (a, Ask::Extrude { parent }),
            (Tool::AddBone, None) => (a, Ask::Ground),
            _ => clicking(a, f),
        }
    }
}

/// The frame from after a release on: an ongoing drag goes on, else the gizmo
/// is looked for under the pointer, else a press counts.
pub open spec fn going_on(a: AppView, f: ToolFrame) -> (AppView, Ask) {
    match a.drag {
        Some(DragView::Marquee { start, additive, .. }) => (
            if f.pointer.down {
                AppView {
                    drag: Some(DragView::Marquee { start, current: f.pointer.pos, additive }),
                    ..a
                }
            } else {
                a
            },
            Ask::Done,
        ),
        Some(d) => (
            if d is Sculpt {
                a
            } else {
                AppView { gizmo_hover: axis_of(d), ..a }
            },
            if f.pointer.down {
                drag_ask(d, f.pointer.ctrl)
            } else {
                Ask::Done
            },
        ),
        None => {
            let b = AppView { gizmo_hover: None, ..a };
            if a.rig.mode != AppMode::Shape && f.over && a.rig.selection is Some && a.rig.tool
                == Tool::Rotate {
                (b, Ask::HoverRotate)
            } else if a.rig.mode != AppMode::Shape && f.over && a.rig.selection is Some
                && a.rig.tool == Tool::Translate {
                (b, Ask::HoverTranslate)
            } else {
                pressing(b, f)
            }
        },
    }
}

/// A pointer frame from its start.
pub open spec fn tools_started(a: AppView, f: ToolFrame) -> (AppView, Ask) {
    if f.pointer.released {
        match a.drag {
            Some(DragView::Marquee { start, current, additive }) => (
                AppView { drag: None, edit_bone: None, ..a },
                Ask::FinishMarquee { start, current, additive },
            ),
            _ => going_on(let_up(a), f),
        }
    } else {
        going_on(a, f)
    }
}

/// The scene nodes after `locals` were written one after the other.
pub open spec fn moved_nodes(nodes: Seq<NodeView>, locals: Seq<(NodeHandle, Transform)>) -> Seq<
    NodeView,
>
    decreases locals.len(),
{
    if locals.len() == 0 {
        nodes
    } else {
        with_local(moved_nodes(nodes, locals.drop_last()), locals.last().0, locals.last().1)
    }
}

/// What the status line says during a stroke.
pub open spec fn stroke_status(kind: BrushKind, ctrl: bool) -> Seq<char> {
    match kind {
        BrushKind::Grab => "Grab…"@,
        BrushKind::Inflate => if ctrl {
            "Deflate…"@
        } else {
            "Inflate…"@
        },
        BrushKind::Smooth => "Smooth…"@,
    }
}

/// `a` with a drag that begins.
pub open spec fn dragging(a: AppView, d: DragView) -> (AppView, Ask) {
    (AppView { drag: Some(d), ..a }, Ask::Done)
}

/// `a` after bone `id` was clicked.
pub open spec fn bone_clicked(a: AppView, id: BoneId) -> AppView {
    let rig = reselected(a.rig, Set::empty().insert(id), Some(id));
    AppView { rig, edit_bone: None, status: selection_status(rig), ..a }
}

/// `a` after a click that hit nothing.
pub open spec fn nothing_clicked(a: AppView) -> AppView {
    let rig = reselected(a.rig, Set::empty(), None);
    AppView { rig, edit_bone: None, status: selection_status(rig), ..a }
}

/// `b` is `a` with the selection of `b`, told in the status line.
pub open spec fn told(a: AppView, b: AppView) -> bool {
    b == (AppView {
        rig: reselected(a.rig, b.rig.selected, b.rig.selection),
        status: selection_status(b.rig),
        ..a
    })
}

impl RigDocument {
    /// Binds `bones` where they are.
    pub fn commit_binds(&mut self, scene: &Scene, bones: &Vec<BoneId>)
        requires
            old(self).wf(),
            scene.wf(),
        ensures
            final(self).wf(),
            final(self)@ == (RigView {
                bind_locals: committed(old(self)@.bind_locals, scene@.nodes, bones@),
                ..old(self)@
            }),
    {
        let ghost b0 = self@.bind_locals;
        let ghost nodes = scene@.nodes;
        let mut i: usize = 0;
        assert(committed(b0, nodes, bones@.take(0)) =~= b0);
        while i < bones.len()
            invariant
                i <= bones@.len(),
                self.wf(),
                scene.wf(),
                nodes == scene@.nodes,
                self@ == (RigView {
                    bind_locals: committed(b0, nodes, bones@.take(i as int)),
                    ..old(self)@
                }),
            decreases bones.len() - i,
        {
            let ghost was = self@.bind_locals;
            let id = bones[i];
            self.write_bind_for(scene, id);
            proof {
                let t = bones@.take(i as int);
                let t1 = bones@.take(i as int + 1);
                assert(t1 =~= t.push(id));
                assert forall|x: BoneId| t1.contains(x) <==> t.contains(x) || x == id by {
                    crate::rig_select::lemma_push_to_set(t, id);
                    assert(t1.contains(x) == t1.to_set().contains(x));
                    assert(t.contains(x) == t.to_set().contains(x));
                }
                lemma_key_handle(id.node.key_of(), id.node);
                assert forall|k: u64| rebinds(nodes, t1, k) <==> rebinds(nodes, t, k) || (k
                    == id.node.key_of() && has_node(nodes, id.node)) by {
                    lemma_key_handle(k, id.node);
                }
                assert(self@.bind_locals =~= committed(b0, nodes, t1));
            }
            i = i + 1;
        }
        assert(bones@.take(i as int) =~= bones@);
    }
}

/// The shape key to raise before a stroke.
fn raised_key(state: &AppState) -> (r: Option<ShapeRef>)
    ensures
        r == to_raise(state@),
{
    let mesh = match state.rig.active_mesh {
        Some(m) => m,
        None => {
            return None;
        },
    };
    let index = match state.rig.active_shape {
        Some(k) => k,
        None => {
            return None;
        },
    };
    let ghost ms = state@.scene.meshes;
    let mut i: usize = 0;
    while i < state.scene.meshes.len()
        invariant
            i <= state.scene.meshes@.len(),
            ms == state@.scene.meshes,
            state@.rig.active_mesh == Some(mesh),
            state@.rig.active_shape == Some(index),
            forall|j: int| 0 <= j < i ==> !faint(#[trigger] ms[j], mesh, index),
        decreases state.scene.meshes.len() - i,
    {
        assert(ms[i as int] == state.scene.meshes@[i as int]@);
        if state.scene.meshes[i].handle == mesh {
            let w = if index < state.scene.meshes[i].morph_weights.len() {
                state.scene.meshes[i].morph_weights[index]
            } else {
                Scalar { bits: BITS_ZERO }
            };
            if w.less(&(Scalar { bits: BITS_0_05 })) {
                assert(faint(ms[i as int], mesh, index));
                return Some(ShapeRef { mesh, index });
            }
        }
        i = i + 1;
    }
    None
}

fn click(state: &mut AppState, f: &ToolFrame) -> (r: Ask)
    requires
        old(state).wf(),
    ensures
        final(state).wf(),
        (final(state)@, r) == clicking(old(state)@, *f),
{
    if f.pointer.ctrl && state.rig.tool != Tool::AddBone {
        state.drag = Some(
            Drag::Marquee { start: f.pointer.pos, current: f.pointer.pos, additive: true },
        );
        return Ask::Done;
    }
    Ask::PickBone
}

fn press(state: &mut AppState, f: &ToolFrame) -> (r: Ask)
    requires
        old(state).wf(),
    ensures
        final(state).wf(),
        (final(state)@, r) == pressing(old(state)@, *f),
{
    if f.ui_wants_mouse || !f.over || !f.pointer.pressed {
        return Ask::Done;
    }
    if state.rig.mode == AppMode::Shape {
        if state.rig.tool == Tool::Brush {
            if state.rig.active_shape.is_none() {
                state.status = "Create / select a shape key first".to_owned();
                return Ask::Done;
            }
            return Ask::BeginStroke { raise: raised_key(state) };
        }
        return Ask::PickMesh;
    }
    let pose = state.rig.mode == AppMode::Pose;
    if pose && state.rig.tool == Tool::SoftGrab {
        return Ask::BeginGrab;
    }
    match state.rig.selection {
        Some(sel) => match state.rig.tool {
            Tool::Rotate => Ask::BeginRotate,
            Tool::Translate => if pose && state.rig.move_mode == MoveMode::AutoIk {
                Ask::BeginIk
            } else if pose && state.rig.move_mode == MoveMode::Verlet {
                Ask::BeginVerlet
            } else {
                Ask::BeginTranslate
            },
            Tool::AddBone => Ask::Extrude { parent: sel },
            _ => click(state, f),
        },
        None => if state.rig.tool == Tool::AddBone {
            Ask::Ground
        } else {
            click(state, f)
        },
    }
}

fn go_on(state: &mut AppState, f: &ToolFrame) -> (r: Ask)
    requires
        old(state).wf(),
    ensures
        final(state).wf(),
        (final(state)@, r) == going_on(old(state)@, *f),
{
    let down = f.pointer.down;
    match &state.drag {
        Some(Drag::Marquee { start, current: _, additive }) => {
            let begun = *start;
            let more = *additive;
            if down {
                state.drag = Some(
                    Drag::Marquee { start: begun, current: f.pointer.pos, additive: more },
                );
            }
            return Ask::Done;
        },
        Some(Drag::Sculpt { .. }) => {
            return if down {
                Ask::Stroke { invert: f.pointer.ctrl }
            } else {
                Ask::Done
            };
        },
        _ => {},
    }
    let (axis, ask): (Option<GizmoAxis>, Ask) = match &state.drag {
        Some(Drag::Rotate { axis, .. }) => (Some(*axis), Ask::DragRotate),
        Some(Drag::Translate { axis, .. }) => (Some(*axis), Ask::DragTranslate),
        Some(Drag::IkPull { axis, .. }) => (Some(*axis), Ask::DragIk),
        Some(Drag::Verlet { axis, .. }) => (Some(*axis), Ask::DragVerlet),
        Some(_) => (None, Ask::DragSoft),
        None => (None, Ask::Done),
    };
    state.gizmo_hover = axis;
    if state.drag.is_some() {
        return if down {
            ask
        } else {
            Ask::Done
        };
    }
    if state.rig.mode != AppMode::Shape && f.over && state.rig.selection.is_some() {
        if state.rig.tool == Tool::Rotate {
            return Ask::HoverRotate;
        }
        if state.rig.tool == Tool::Translate {
            return Ask::HoverTranslate;
        }
    }
    press(state, f)
}

/// Ends the drag, which is no marquee.
fn let_go_of(state: &mut AppState)
    requires
        old(state).wf(),
        !(old(state)@.drag matches Some(d) && d is Marquee),
    ensures
        final(state).wf(),
        final(state)@ == let_up(old(state)@),
{
    let edit = state.rig.mode == AppMode::Edit;
    let drag = state.drag.take();
    match drag {
        Some(Drag::Rotate { bones, .. }) => {
            if edit {
                state.rig.commit_binds(&state.scene, &bones);
            }
        },
        Some(Drag::Translate { bones, .. }) => {
            if edit {
                state.rig.commit_binds(&state.scene, &bones);
            }
        },
        Some(Drag::SoftGrab { chain_id, .. }) => {
            state.rig.release_soft_grab(chain_id);
        },
        _ => {},
    }
}

/// Viewport select / gizmo after UI laid out the viewport: the start of a
/// pointer frame.
pub fn handle_tools(state: &mut AppState, f: &ToolFrame) -> (r: Ask)
    requires
        old(state).wf(),
    ensures
        final(state).wf(),
        (final(state)@, r) == tools_started(old(state)@, *f),
{
    if f.pointer.released {
        match &state.drag {
            Some(Drag::Marquee { start, current, additive }) => {
                let ask = Ask::FinishMarquee {
                    start: *start,
                    current: *current,
                    additive: *additive,
                };
                state.drag = None;
                state.edit_bone = None;
                return ask;
            },
            _ => {},
        }
        let_go_of(state);
    }
    go_on(state, f)
}

/// A marquee of this length, in pixels, is a click.
pub fn marquee_is_click(length: Scalar) -> (r: bool)
    ensures
        r == less_than(length, Scalar { bits: BITS_5 }),
{
    length.less(&(Scalar { bits: BITS_5 }))
}

/// A marquee ended where it began, over the bone `hit` or over nothing.
pub fn marquee_clicked(state: &mut AppState, f: &ToolFrame, hit: Option<BoneId>) -> (r: Ask)
    requires
        old(state).wf(),
        hit matches Some(id) && old(state)@.rig.selected.contains(id) && old(state)@.rig.selection is None
            ==> old(state)@.rig.selected.len() != 2,
    ensures
        final(state).wf(),
        hit is None ==> (final(state)@, r) == going_on(old(state)@, *f),
        hit matches Some(id) ==> exists|m: AppView|
            {
                &&& told(old(state)@, m)
                &&& (final(state)@, r) == #[trigger] going_on(m, *f)
                &&& toggled(old(state)@.rig, m.rig, id)
            },
{
    if let Some(id) = hit {
        state.rig.toggle_selection(id);
        state.status_from_selection();
        let ghost m = state@;
        assert(told(old(state)@, m));
        assert(toggled(old(state)@.rig, m.rig, id));
        let r = go_on(state, f);
        assert((state@, r) == going_on(m, *f));
        return r;
    }
    go_on(state, f)
}

/// The selection of `b` is that of `a` with `id` toggled: put in and made
/// active, or taken out, where an active one hands over to another.
pub open spec fn toggled(a: RigView, b: RigView, id: BoneId) -> bool {
    if a.selected.contains(id) {
        &&& b.selected == a.selected.remove(id)
        &&& if a.selection == Some(id) {
            picked(b.selection, b.selected)
        } else {
            b.selection == a.selection
        }
    } else {
        b.selected == a.selected.insert(id) && b.selection == Some(id)
    }
}

/// The selection after a marquee over `ids`: they are added, the last of them
/// becoming active, or replace what was selected.
pub open spec fn boxed(r: RigView, ids: Seq<BoneId>, additive: bool) -> RigView {
    reselected(
        r,
        if additive {
            r.selected.union(ids.to_set())
        } else {
            ids.to_set()
        },
        if ids.len() > 0 {
            Some(ids.last())
        } else if additive {
            r.selection
        } else {
            None
        },
    )
}

/// A marquee ended around the bones `ids`.
pub fn marquee_boxed(state: &mut AppState, f: &ToolFrame, ids: &Vec<BoneId>, additive: bool) -> (r: Ask)
    requires
        old(state).wf(),
        ids@.len() == 0 && additive ==> tellable(old(state)@.rig),
    ensures
        final(state).wf(),
        (final(state)@, r) == going_on(
            ({
                let rig = boxed(old(state)@.rig, ids@, additive);
                AppView { rig, status: selection_status(rig), ..old(state)@ }
            }),
            *f,
        ),
{
    state.rig.select_bones(ids, additive);
    proof {
        if ids@.len() == 0 {
            let s = old(state)@.rig.selected;
            assert(ids@.to_set() =~= Set::empty());
            assert(s.union(ids@.to_set()) =~= s);
        }
    }
    state.status_from_selection();
    go_on(state, f)
}

/// The stroke was carried on.
pub fn stroke_applied(state: &mut AppState)
    requires
        old(state).wf(),
    ensures
        final(state).wf(),
        final(state)@ == (AppView {
            rig: RigView { overlay_dirty: true, ..old(state)@.rig },
            ..old(state)@
        }),
{
    state.rig.invalidate_weight_overlay();
}

/// The gizmo handle under the pointer is `axis`.
pub fn hovered(state: &mut AppState, f: &ToolFrame, axis: Option<GizmoAxis>) -> (r: Ask)
    requires
        old(state).wf(),
    ensures
        final(state).wf(),
        (final(state)@, r) == pressing(AppView { gizmo_hover: axis, ..old(state)@ }, *f),
{
    state.gizmo_hover = axis;
    press(state, f)
}

/// The dragged bones are where `locals` say; `euler` are the angles of the one
/// the drag is about.
pub fn drag_applied(state: &mut AppState, locals: &Vec<(NodeHandle, Transform)>, euler: Vec3)
    requires
        old(state).wf(),
    ensures
        final(state).wf(),
        final(state)@ == ({
            let a = old(state)@;
            let b = AppView {
                scene: SceneView { nodes: moved_nodes(a.scene.nodes, locals@), ..a.scene },
                rig: RigView { overlay_dirty: true, ..a.rig },
                ..a
            };
            match a.drag {
                Some(d) => match dragged_bone(d) {
                    Some(bone) => inspecting(b, bone, euler),
                    None => b,
                },
                None => b,
            }
        }),
{
    let ghost n0 = state@.scene.nodes;
    let mut i: usize = 0;
    assert(locals@.take(0) =~= Seq::empty());
    while i < locals.len()
        invariant
            i <= locals@.len(),
            state.wf(),
            state@ == (AppView {
                scene: SceneView {
                    nodes: moved_nodes(n0, locals@.take(i as int)),
                    ..old(state)@.scene
                },
                ..old(state)@
            }),
        decreases locals.len() - i,
    {
        assert(locals@.take(i as int + 1).drop_last() =~= locals@.take(i as int));
        state.scene.set_local(locals[i].0, locals[i].1);
        i = i + 1;
    }
    assert(locals@.take(i as int) =~= locals@);
    state.rig.invalidate_weight_overlay();
    let bone = match &state.drag {
        Some(Drag::Rotate { bone, .. }) => Some(*bone),
        Some(Drag::Translate { bone, .. }) => Some(*bone),
        Some(Drag::IkPull { bone, .. }) => Some(*bone),
        Some(Drag::Verlet { bone, .. }) => Some(*bone),
        _ => None,
    };
    if let Some(id) = bone {
        state.sync_inspector_live(id, euler);
    }
}

/// A stroke began on mesh `hit`, or did not begin.
pub fn stroke_begun(state: &mut AppState, f: &ToolFrame, hit: Option<MeshHandle>)
    requires
        old(state).wf(),
    ensures
        final(state).wf(),
        final(state)@ == (match hit {
            Some(mesh) => AppView {
                rig: RigView { active_mesh: Some(mesh), ..old(state)@.rig },
                drag: Some(DragView::Sculpt { mesh }),
                status: stroke_status(old(state)@.rig.brush_kind, f.pointer.ctrl),
                ..old(state)@
            },
            None => old(state)@,
        }),
{
    if let Some(mesh) = hit {
        state.rig.active_mesh = Some(mesh);
        state.drag = Some(Drag::Sculpt { mesh });
        state.status = match state.rig.brush_kind {
            BrushKind::Grab => "Grab…".to_owned(),
            BrushKind::Inflate => if f.pointer.ctrl {
                "Deflate…".to_owned()
            } else {
                "Inflate…".to_owned()
            },
            BrushKind::Smooth => "Smooth…".to_owned(),
        };
    }
}

/// The mesh under the pointer is `hit`.
pub fn mesh_picked(state: &mut AppState, hit: Option<MeshHandle>)
    requires
        old(state).wf(),
    ensures
        final(state).wf(),
        final(state)@ == (match hit {
            Some(mesh) => AppView {
                rig: RigView { active_mesh: Some(mesh), ..old(state)@.rig },
                status: "Mesh "@ + decimal_of(mesh.index as nat) + ":"@ + decimal_of(
                    mesh.generation as nat,
                ),
                ..old(state)@
            },
            None => old(state)@,
        }),
{
    if let Some(mesh) = hit {
        state.rig.active_mesh = Some(mesh);
        let a = join("Mesh ", &decimal(mesh.index as u64));
        state.status = join(&join(&a, ":"), &decimal(mesh.generation as u64));
    }
}

/// A particle of chain `hit.0` was grabbed at bone `hit.1`, or none.
pub fn grab_begun(state: &mut AppState, hit: Option<(u32, BoneId)>)
    requires
        old(state).wf(),
    ensures
        final(state).wf(),
        final(state)@ == (match hit {
            Some((chain_id, bone)) => AppView {
                rig: reselected(old(state)@.rig, Set::empty().insert(bone), Some(bone)),
                edit_bone: None,
                status: "Soft Grab…"@,
                drag: Some(DragView::SoftGrab { chain_id, bone }),
                ..old(state)@
            },
            None => AppView { status: "Soft Grab: click a soft joint"@, ..old(state)@ },
        }),
{
    match hit {
        Some((chain_id, bone)) => {
            state.rig.set_selection(bone);
            state.edit_bone = None;
            state.status = "Soft Grab…".to_owned();
            state.drag = Some(Drag::SoftGrab { chain_id, bone });
        },
        None => {
            state.status = "Soft Grab: click a soft joint".to_owned();
        },
    }
}

/// A ring was grabbed: it turns the bones `hit.1` about `hit.0`; or none was.
pub fn rotate_begun(
    state: &mut AppState,
    f: &ToolFrame,
    hit: Option<(GizmoAxis, Vec<BoneId>)>,
) -> (r: Ask)
    requires
        old(state).wf(),
        old(state)@.rig.selection is Some,
    ensures
        final(state).wf(),
        (final(state)@, r) == (match hit {
            Some((axis, bones)) => dragging(
                old(state)@,
                DragView::Rotate { bone: old(state)@.rig.selection->0, axis, bones: bones@ },
            ),
            None => clicking(old(state)@, *f),
        }),
{
    if let (Some((axis, bones)), Some(bone)) = (hit, state.rig.selection) {
        state.drag = Some(Drag::Rotate { bone, axis, bones });
        return Ask::Done;
    }
    click(state, f)
}

/// An arrow was grabbed: it moves the bones `hit.1` along `hit.0`; or none was.
pub fn translate_begun(
    state: &mut AppState,
    f: &ToolFrame,
    hit: Option<(GizmoAxis, Vec<BoneId>)>,
) -> (r: Ask)
    requires
        old(state).wf(),
        old(state)@.rig.selection is Some,
    ensures
        final(state).wf(),
        (final(state)@, r) == (match hit {
            Some((axis, bones)) => dragging(
                old(state)@,
                DragView::Translate { bone: old(state)@.rig.selection->0, axis, bones: bones@ },
            ),
            None => clicking(old(state)@, *f),
        }),
{
    if let (Some((axis, bones)), Some(bone)) = (hit, state.rig.selection) {
        state.drag = Some(Drag::Translate { bone, axis, bones });
        return Ask::Done;
    }
    click(state, f)
}

/// An IK pull began along `axis`; without a chain long enough, plain moving is
/// tried next.
pub fn ik_begun(state: &mut AppState, axis: Option<GizmoAxis>) -> (r: Ask)
    requires
        old(state).wf(),
        old(state)@.rig.selection is Some,
    ensures
        final(state).wf(),
        (final(state)@, r) == (match axis {
            Some(axis) => dragging(
                old(state)@,
                DragView::IkPull { bone: old(state)@.rig.selection->0, axis },
            ),
            None => (old(state)@, Ask::BeginTranslate),
        }),
{
    if let (Some(axis), Some(bone)) = (axis, state.rig.selection) {
        state.drag = Some(Drag::IkPull { bone, axis });
        return Ask::Done;
    }
    Ask::BeginTranslate
}

/// A soft pull began along `axis`; without a chain long enough, plain moving is
/// tried next.
pub fn verlet_begun(state: &mut AppState, axis: Option<GizmoAxis>) -> (r: Ask)
    requires
        old(state).wf(),
        old(state)@.rig.selection is Some,
    ensures
        final(state).wf(),
        (final(state)@, r) == (match axis {
            Some(axis) => dragging(
                old(state)@,
                DragView::Verlet { bone: old(state)@.rig.selection->0, axis },
            ),
            None => (old(state)@, Ask::BeginTranslate),
        }),
{
    if let (Some(axis), Some(bone)) = (axis, state.rig.selection) {
        state.drag = Some(Drag::Verlet { bone, axis });
        return Ask::Done;
    }
    Ask::BeginTranslate
}

/// A bone grows from `parent` on the new node `node`.
pub fn extruded(state: &mut AppState, parent: BoneId, node: NodeHandle, local: Transform)
    requires
        old(state).wf(),
        fresh(old(state)@.rig, old(state)@.scene, node),
        old(state).rig.next_bone_serial < u32::MAX,
    ensures
        final(state).wf(),
        final(state)@ == (if has_bone(old(state)@.rig.bones, parent) {
            grown(old(state)@, Some(parent), node, local, "Extruded bone"@)
        } else {
            old(state)@
        }),
{
    if state.rig.extrude_bone(&mut state.scene, parent, node, local).is_some() {
        state.edit_bone = None;
        state.status = "Extruded bone".to_owned();
    }
}

/// A root bone appears on the new node `node`.
pub fn grounded(state: &mut AppState, node: NodeHandle, local: Transform)
    requires
        old(state).wf(),
        fresh(old(state)@.rig, old(state)@.scene, node),
        old(state).rig.next_bone_serial < u32::MAX,
    ensures
        final(state).wf(),
        final(state)@ == grown(old(state)@, None, node, local, "Added root bone"@),
{
    let _id = state.rig.add_root_at(&mut state.scene, node, local);
    state.edit_bone = None;
    state.status = "Added root bone".to_owned();
}

/// `a` with a new bone on node `node`.
pub open spec fn grown(
    a: AppView,
    parent: Option<BoneId>,
    node: NodeHandle,
    local: Transform,
    status: Seq<char>,
) -> AppView {
    AppView {
        rig: bone_grown(a.rig, BoneId { node }, parent, local),
        scene: SceneView {
            nodes: a.scene.nodes.push(
                bone_node(node, bone_name(a.rig.next_bone_serial), parent, local),
            ),
            ..a.scene
        },
        edit_bone: None,
        status,
        ..a
    }
}

/// A plain click: `ray` tells whether there was anything to look along, `hit`
/// the bone found.
pub fn bone_picked(state: &mut AppState, ray: bool, hit: Option<BoneId>)
    requires
        old(state).wf(),
    ensures
        final(state).wf(),
        final(state)@ == (if !ray {
            old(state)@
        } else {
            match hit {
                Some(id) => bone_clicked(old(state)@, id),
                None => if old(state)@.gizmo_hover is None {
                    nothing_clicked(old(state)@)
                } else {
                    old(state)@
                },
            }
        }),
{
    if !ray {
        return;
    }
    match hit {
        Some(id) => {
            state.rig.set_selection(id);
            state.edit_bone = None;
            state.status_from_selection();
        },
        None => {
            if state.gizmo_hover.is_none() {
                state.rig.clear_selection();
                state.edit_bone = None;
                state.status_from_selection();
            }
        },
    }
}

} // verus!
