//! What labels, errors and fields of the editor say.

use vstd::prelude::*;
use crate::bones::BoneView;
use crate::driver::{DriverNodeView, DriverView};
use crate::drivers_panel::{active_name, driver_name, driver_summary, needs_pre_ik};
use crate::frame::escaped;
use crate::geom::Scalar;
use crate::inspector::many_of;
use crate::kinds::{DriverNodeKind, DriverSpace, PortType};
use crate::node_body::{body_of, menu_name, preview_text, BodyItem, Field, Port, PreviewForm};
use crate::rig::{AppMode, BrushKind, MoveMode, RigView, Tool};
use crate::script::{ident_char, param_names, params_text};
use crate::script_driver::{free_name, numbered, reserved};
use crate::script_laws::stands_in;
use crate::script_rig::{bone_names, given, unknown_bone, unknown_driver, unknown_space};
use crate::session::{mode_status, AppView};
use crate::text::decimal_of;
use crate::toolbar::{brush_at, mode_at, move_at, move_status, tool_at};

verus! {

/// The options of the toolbar, in their order.
pub proof fn law_options(extra: Tool, kind: BrushKind, i: int)
    ensures
        mode_at(0) == AppMode::Edit && mode_at(1) == AppMode::Pose && mode_at(2) == AppMode::Shape,
        tool_at(0, extra) == Tool::Select && tool_at(1, extra) == Tool::Translate && tool_at(2, extra) == Tool::Rotate
            && tool_at(3, extra) == extra,
        move_at(0) == MoveMode::Fk && move_at(1) == MoveMode::AutoIk && move_at(2) == MoveMode::Verlet,
        brush_at(1, kind) == BrushKind::Grab && brush_at(2, kind) == BrushKind::Inflate && brush_at(3, kind)
            == BrushKind::Smooth,
        !(1 <= i <= 3) ==> brush_at(i, kind) == kind,
        move_status(MoveMode::Fk) == "Move · FK"@,
        move_status(MoveMode::AutoIk) == "Move · IK (CCD, short chain)"@,
        move_status(MoveMode::Verlet) == "Move · Soft (CCD + falloff)"@,
{
}

/// A driver is summed up by its nodes, its links and when it runs.
pub proof fn law_driver_summary(r: RigView, d: DriverView)
    ensures
        needs_pre_ik(r, d) ==> driver_summary(r, d) == decimal_of(d.nodes.len()) + " nodes · "@ + decimal_of(
            d.space.links.len(),
        ) + " links · "@ + "pre-IK"@,
        !needs_pre_ik(r, d) ==> driver_summary(r, d) == decimal_of(d.nodes.len()) + " nodes · "@ + decimal_of(
            d.space.links.len(),
        ) + " links · "@ + "post-IK"@,
{
}

/// A driver goes by its own name; where there is none of that number, by what
/// was offered.
pub proof fn law_driver_name(ds: Seq<DriverView>, id: u32, other: Seq<char>, i: int)
    ensures
        0 <= i < ds.len() && ds[i].id == id && (forall|j: int| 0 <= j < i ==> (#[trigger] ds[j]).id != id)
            ==> driver_name(ds, id, other) == ds[i].name,
        (forall|j: int| 0 <= j < ds.len() ==> (#[trigger] ds[j]).id != id) ==> driver_name(ds, id, other) == other,
{
    crate::script_laws::law_driver_find(ds, id, i);
}

/// Without an active mesh or shape key none is named.
pub proof fn law_active_name(a: AppView)
    ensures
        a.rig.active_mesh is None || a.rig.active_shape is None ==> active_name(a) is None,
{
}

/// Fields of a node edit the parameter they stand for.
pub proof fn law_fields()
    ensures
        Field::Value.slot_of() == 0 && Field::From.slot_of() == 0 && Field::InFrom.slot_of() == 0
            && Field::Min.slot_of() == 0 && Field::Weight.slot_of() == 0,
        Field::To.slot_of() == 1 && Field::InTo.slot_of() == 1 && Field::Max.slot_of() == 1,
        Field::OutFrom.slot_of() == 2,
        Field::OutTo.slot_of() == 3,
{
}

/// No two fields of a node have widgets of one name.
pub proof fn law_field_names(a: Field, b: Field)
    ensures
        a.prefix_of() == b.prefix_of() ==> a == b,
{
    reveal_strlit("c_");
    reveal_strlit("from_");
    reveal_strlit("to_");
    reveal_strlit("if_");
    reveal_strlit("it_");
    reveal_strlit("of_");
    reveal_strlit("ot_");
    reveal_strlit("lo_");
    reveal_strlit("hi_");
    reveal_strlit("qs_");
    if a.prefix_of() == b.prefix_of() {
        assert(a.prefix_of()[0] == b.prefix_of()[0]);
        assert(a.prefix_of()[1] == b.prefix_of()[1]);
    }
}

/// A value is shown once there is one, in the form of its node.
pub proof fn law_preview_text(form: PreviewForm, s: Seq<char>)
    ensures
        s.len() == 0 ==> preview_text(form, s) is None,
        s.len() > 0 && form == PreviewForm::Plain ==> preview_text(form, s) == Some(s),
        s.len() > 0 && form == PreviewForm::Equals ==> preview_text(form, s) == Some("= "@ + s),
        s.len() > 0 && form == PreviewForm::Weight ==> preview_text(form, s) == Some("w="@ + s),
        s.len() > 0 && form == PreviewForm::Degrees ==> preview_text(form, s) == Some(s + "°"@),
{
}

/// Menus name kinds by their titles, but for two that they say more of.
pub proof fn law_menu_name(k: DriverNodeKind)
    ensures
        k == DriverNodeKind::Remap ==> menu_name(k) == "Remap 0–1"@,
        k == DriverNodeKind::QuatAngle ==> menu_name(k) == "Quat Angle °"@,
        k != DriverNodeKind::Remap && k != DriverNodeKind::QuatAngle ==> menu_name(k) == k.title_of(),
{
}

/// Letters and digits of ASCII stay in identifiers, all else becomes an underscore.
pub proof fn law_ident_char(c: char)
    ensures
        'a' <= c <= 'z' || 'A' <= c <= 'Z' || '0' <= c <= '9' ==> ident_char(c) == c,
        !('a' <= c <= 'z' || 'A' <= c <= 'Z' || '0' <= c <= '9') ==> ident_char(c) == '_',
{
}

/// A name that is free stays as it is.
pub proof fn law_free_name(used: Seq<Seq<char>>, plain: Seq<char>, n: nat)
    ensures
        !used.contains(plain) && !reserved(plain) ==> free_name(used, plain) == plain,
        numbered(plain, n) == plain + "_"@ + decimal_of(n),
{
}

/// Every parameter of a node is written, under its name.
pub proof fn law_params_text(m: spec_fn(Scalar) -> Seq<char>, n: DriverNodeView, k: nat, j: int)
    requires
        0 <= j < k <= param_names(n.kind).len(),
    ensures
        stands_in(
            ", "@ + param_names(n.kind)[j].0 + " = "@ + m(n.floats[param_names(n.kind)[j].1]),
            params_text(m, n, k),
        ),
    decreases k,
{
    let e = Seq::<char>::empty();
    let front = params_text(m, n, (k - 1) as nat);
    let p = param_names(n.kind)[k - 1];
    let last = ", "@ + p.0 + " = "@ + m(n.floats[p.1]);
    assert(params_text(m, n, k) =~= front + last + e);
    if j < k - 1 {
        law_params_text(m, n, (k - 1) as nat, j);
        let part = ", "@ + param_names(n.kind)[j].0 + " = "@ + m(n.floats[param_names(n.kind)[j].1]);
        let (a, b) = choose|a: Seq<char>, b: Seq<char>| front == #[trigger] (a + part + b);
        assert(params_text(m, n, k) =~= a + part + (b + last));
    }
}

/// Errors name what was asked for.
pub proof fn law_errors(name: Seq<char>, id: u32)
    ensures
        unknown_bone(name) == "unknown bone '"@ + name + "' (rig.list_bones())"@,
        unknown_space(name) == "unknown space '"@ + name + "' (local|world|offset)"@,
        unknown_driver(id) == "unknown driver "@ + decimal_of(id as nat),
{
}

/// Bones are listed by name in their order, one line each.
pub proof fn law_bone_names(bs: Seq<BoneView>, i: int)
    ensures
        bone_names(bs).len() == bs.len(),
        0 <= i < bs.len() ==> bone_names(bs)[i] == bs[i].name,
{
}

/// What is given counts; what is not leaves what was there.
pub proof fn law_given(a: Scalar, b: Scalar)
    ensures
        given(a, Some(b)) == b,
        given(a, None) == a,
{
}

/// Spaces, as menus call them.
pub proof fn law_space_labels()
    ensures
        DriverSpace::Local.label_of() == "Local"@,
        DriverSpace::World.label_of() == "World"@,
        DriverSpace::BindOffset.label_of() == "Offset"@,
{
}

/// Ports, by the names that links have for them.
pub proof fn law_port_texts()
    ensures
        Port::Pos.text_of() == "pos"@ && Port::Rot.text_of() == "rot"@ && Port::Scale.text_of() == "scale"@,
        Port::In.text_of() == "in"@ && Port::Value.text_of() == "value"@ && Port::V.text_of() == "v"@,
        Port::Q.text_of() == "q"@ && Port::Euler.text_of() == "euler"@ && Port::X.text_of() == "x"@,
        Port::Y.text_of() == "y"@ && Port::Z.text_of() == "z"@ && Port::A.text_of() == "a"@,
        Port::B.text_of() == "b"@ && Port::S.text_of() == "s"@ && Port::T.text_of() == "t"@,
        Port::Out.text_of() == "out"@,
{
}

/// Escape says that nothing is selected any more, and lets go of what was active,
/// dragged and inspected; the rig stays otherwise.
pub proof fn law_escaped(a: AppView)
    ensures
        escaped(a).status == "Selection cleared."@,
        escaped(a).rig.selection is None && escaped(a).drag is None && escaped(a).edit_bone is None,
        escaped(a).rig.bones == a.rig.bones && escaped(a).scene == a.scene && escaped(a).rig.mode == a.rig.mode,
{
}

/// How many are selected is told where they are two or more.
pub proof fn law_many(r: RigView)
    ensures
        r.selected.len() <= 1 ==> many_of(r) is None,
        r.selected.len() > 1 ==> many_of(r) == Some(r.selected.len() as usize),
{
}

/// The name that scripts have for what a field edits.
pub open spec fn field_param(f: Field) -> Seq<char> {
    match f {
        Field::Value => "value"@,
        Field::From => "from"@,
        Field::To => "to"@,
        Field::InFrom => "in_from"@,
        Field::InTo => "in_to"@,
        Field::OutFrom => "out_from"@,
        Field::OutTo => "out_to"@,
        Field::Min => "min"@,
        Field::Max => "max"@,
        Field::Weight => "t"@,
    }
}

/// A number on the body of a node edits the parameter that scripts give by the
/// name of that field.
pub proof fn law_body_numbers(kind: DriverNodeKind, i: int)
    requires
        0 <= i < body_of(kind).len(),
        body_of(kind)[i] is Number,
    ensures
        ({
            let f = body_of(kind)[i]->Number_0;
            exists|k: int|
                0 <= k < param_names(kind).len() && (#[trigger] param_names(kind)[k]) == (field_param(f), f.slot_of() as int)
        }),
{
    let f = body_of(kind)[i]->Number_0;
    let k = f.slot_of() as int;
    assert(param_names(kind)[k] == (field_param(f), f.slot_of() as int));
}

/// Nodes that compute from two values have an input for each.
pub proof fn law_body_pairs(kind: DriverNodeKind)
    ensures
        kind == DriverNodeKind::Add || kind == DriverNodeKind::Mul || kind == DriverNodeKind::Vec3Add || kind
            == DriverNodeKind::QuatMul || kind == DriverNodeKind::QuatAngle ==> {
            &&& body_of(kind)[0] is Input && body_of(kind)[0]->Input_0 == Port::A
            &&& body_of(kind)[1] is Input && body_of(kind)[1]->Input_0 == Port::B
            &&& body_of(kind)[0]->Input_1 == body_of(kind)[1]->Input_1
        },
        kind == DriverNodeKind::Vec3Scale || kind == DriverNodeKind::QuatRotateVec || kind == DriverNodeKind::QuatScale
            ==> body_of(kind)[0] is Input && body_of(kind)[1] is Input && body_of(kind)[0]->Input_0
            != body_of(kind)[1]->Input_0,
        kind == DriverNodeKind::CombineVec3 ==> {
            &&& body_of(kind)[0] == BodyItem::Input(Port::X, PortType::Float)
            &&& body_of(kind)[1] == BodyItem::Input(Port::Y, PortType::Float)
            &&& body_of(kind)[2] == BodyItem::Input(Port::Z, PortType::Float)
        },
        kind == DriverNodeKind::BoneSet ==> {
            &&& body_of(kind)[0] == BodyItem::Input(Port::Pos, PortType::Vec3)
            &&& body_of(kind)[1] == BodyItem::Input(Port::Rot, PortType::Quat)
            &&& body_of(kind)[2] == BodyItem::Input(Port::Scale, PortType::Vec3)
        },
        kind == DriverNodeKind::Vec3 ==> body_of(kind)[1] is Triple && !body_of(kind)[1]->angles,
        kind == DriverNodeKind::QuatEuler ==> body_of(kind)[2] is Triple && body_of(kind)[2]->angles,
{
}

/// What the status line says of each mode.
pub proof fn law_mode_status()
    ensures
        mode_status(AppMode::Edit) == "Edit mode — rest pose / hierarchy"@,
        mode_status(AppMode::Pose) == "Pose mode — FK rotate"@,
        mode_status(AppMode::Shape) == "Shape mode — Grab / Inflate / Smooth on shape keys"@,
{
}

} // verus!
