//! What the node editor shows: the pages of the spawn menu and, for every kind
//! of node, the ports and fields of its body.

use vstd::prelude::*;
use crate::geom::{Scalar, BITS_0_01, BITS_ONE};
use crate::kinds::{DriverNodeKind, PortType};
use crate::order::BITS_0_05;

verus! {

/// A group of node kinds with a page of its own in the spawn menu.
#[derive(Clone, Copy, Debug, PartialEq, Eq, Structural)]
pub enum SpawnGroup {
    Constants,
    Math,
    Vector,
    Quaternion,
}

/// One line of the spawn menu.
#[derive(Clone, Copy, Debug, PartialEq, Eq, Structural)]
pub enum SpawnItem {
    Back,
    Separator,
    Section(SpawnGroup),
    Submenu(SpawnGroup),
    Spawn(DriverNodeKind),
}

impl SpawnGroup {
    /// Page of the group; the root page is 0.
    pub open spec fn page_of(self) -> u8 {
        match self {
            SpawnGroup::Constants => 1,
            SpawnGroup::Math => 2,
            SpawnGroup::Vector => 3,
            SpawnGroup::Quaternion => 4,
        }
    }

    pub fn page(self) -> (r: u8)
        ensures
            r == self.page_of(),
    {
        match self {
            SpawnGroup::Constants => 1,
            SpawnGroup::Math => 2,
            SpawnGroup::Vector => 3,
            SpawnGroup::Quaternion => 4,
        }
    }

    pub fn label(self) -> (r: &'static str)
        ensures
            r@ == (match self {
                SpawnGroup::Constants => "Constants"@,
                SpawnGroup::Math => "Math"@,
                SpawnGroup::Vector => "Vector"@,
                SpawnGroup::Quaternion => "Quaternion"@,
            }),
    {
        match self {
            SpawnGroup::Constants => "Constants",
            SpawnGroup::Math => "Math",
            SpawnGroup::Vector => "Vector",
            SpawnGroup::Quaternion => "Quaternion",
        }
    }
}

/// Page `page` of the spawn menu; any other page is the root.
pub open spec fn menu_page(page: u8) -> Seq<SpawnItem> {
    if page == 1 {
        seq![
            SpawnItem::Back,
            SpawnItem::Separator,
            SpawnItem::Section(SpawnGroup::Constants),
            SpawnItem::Spawn(DriverNodeKind::Float),
            SpawnItem::Spawn(DriverNodeKind::Vec3),
            SpawnItem::Spawn(DriverNodeKind::QuatEuler),
        ]
    } else if page == 2 {
        seq![
            SpawnItem::Back,
            SpawnItem::Separator,
            SpawnItem::Section(SpawnGroup::Math),
            SpawnItem::Spawn(DriverNodeKind::Remap),
            SpawnItem::Spawn(DriverNodeKind::MapRange),
            SpawnItem::Spawn(DriverNodeKind::Clamp),
            SpawnItem::Spawn(DriverNodeKind::Add),
            SpawnItem::Spawn(DriverNodeKind::Mul),
        ]
    } else if page == 3 {
        seq![
            SpawnItem::Back,
            SpawnItem::Separator,
            SpawnItem::Section(SpawnGroup::Vector),
            SpawnItem::Spawn(DriverNodeKind::CombineVec3),
            SpawnItem::Spawn(DriverNodeKind::SplitVec3),
            SpawnItem::Spawn(DriverNodeKind::Vec3Add),
            SpawnItem::Spawn(DriverNodeKind::Vec3Scale),
            SpawnItem::Spawn(DriverNodeKind::Vec3Length),
            SpawnItem::Spawn(DriverNodeKind::Vec3Normalize),
        ]
    } else if page == 4 {
        seq![
            SpawnItem::Back,
            SpawnItem::Separator,
            SpawnItem::Section(SpawnGroup::Quaternion),
            SpawnItem::Spawn(DriverNodeKind::QuatMul),
            SpawnItem::Spawn(DriverNodeKind::QuatRotateVec),
            SpawnItem::Spawn(DriverNodeKind::QuatInvert),
            SpawnItem::Spawn(DriverNodeKind::QuatScale),
            SpawnItem::Spawn(DriverNodeKind::QuatAngle),
            SpawnItem::Spawn(DriverNodeKind::QuatToEuler),
        ]
    } else {
        seq![
            SpawnItem::Spawn(DriverNodeKind::BoneGet),
            SpawnItem::Spawn(DriverNodeKind::BoneSet),
            SpawnItem::Spawn(DriverNodeKind::MorphSet),
            SpawnItem::Separator,
            SpawnItem::Submenu(SpawnGroup::Constants),
            SpawnItem::Submenu(SpawnGroup::Math),
            SpawnItem::Submenu(SpawnGroup::Vector),
            SpawnItem::Submenu(SpawnGroup::Quaternion),
        ]
    }
}

/// The spawn menu on page `page`.
pub fn spawn_menu(page: u8) -> (r: Vec<SpawnItem>)
    ensures
        r@ == menu_page(page),
{
    let r: Vec<SpawnItem> = match page {
        1 => vec![
            SpawnItem::Back,
            SpawnItem::Separator,
            SpawnItem::Section(SpawnGroup::Constants),
            SpawnItem::Spawn(DriverNodeKind::Float),
            SpawnItem::Spawn(DriverNodeKind::Vec3),
            SpawnItem::Spawn(DriverNodeKind::QuatEuler),
        ],
        2 => vec![
            SpawnItem::Back,
            SpawnItem::Separator,
            SpawnItem::Section(SpawnGroup::Math),
            SpawnItem::Spawn(DriverNodeKind::Remap),
            SpawnItem::Spawn(DriverNodeKind::MapRange),
            SpawnItem::Spawn(DriverNodeKind::Clamp),
            SpawnItem::Spawn(DriverNodeKind::Add),
            SpawnItem::Spawn(DriverNodeKind::Mul),
        ],
        3 => vec![
            SpawnItem::Back,
            SpawnItem::Separator,
            SpawnItem::Section(SpawnGroup::Vector),
            SpawnItem::Spawn(DriverNodeKind::CombineVec3),
            SpawnItem::Spawn(DriverNodeKind::SplitVec3),
            SpawnItem::Spawn(DriverNodeKind::Vec3Add),
            SpawnItem::Spawn(DriverNodeKind::Vec3Scale),
            SpawnItem::Spawn(DriverNodeKind::Vec3Length),
            SpawnItem::Spawn(DriverNodeKind::Vec3Normalize),
        ],
        4 => vec![
            SpawnItem::Back,
            SpawnItem::Separator,
            SpawnItem::Section(SpawnGroup::Quaternion),
            SpawnItem::Spawn(DriverNodeKind::QuatMul),
            SpawnItem::Spawn(DriverNodeKind::QuatRotateVec),
            SpawnItem::Spawn(DriverNodeKind::QuatInvert),
            SpawnItem::Spawn(DriverNodeKind::QuatScale),
            SpawnItem::Spawn(DriverNodeKind::QuatAngle),
            SpawnItem::Spawn(DriverNodeKind::QuatToEuler),
        ],
        _ => vec![
            SpawnItem::Spawn(DriverNodeKind::BoneGet),
            SpawnItem::Spawn(DriverNodeKind::BoneSet),
            SpawnItem::Spawn(DriverNodeKind::MorphSet),
            SpawnItem::Separator,
            SpawnItem::Submenu(SpawnGroup::Constants),
            SpawnItem::Submenu(SpawnGroup::Math),
            SpawnItem::Submenu(SpawnGroup::Vector),
            SpawnItem::Submenu(SpawnGroup::Quaternion),
        ],
    };
    assert(r@ =~= menu_page(page));
    r
}

/// Clicking `item` on page `page`: the page shown next and the kind to spawn.
pub fn driver_spawn_menu(page: u8, item: SpawnItem) -> (r: (u8, Option<DriverNodeKind>))
    ensures
        r == (match item {
            SpawnItem::Back => (0u8, None),
            SpawnItem::Submenu(g) => (g.page_of(), None),
            SpawnItem::Spawn(kind) => (0u8, Some(kind)),
            _ => (page, None::<DriverNodeKind>),
        }),
{
    match item {
        SpawnItem::Back => (0, None),
        SpawnItem::Submenu(g) => (g.page(), None),
        SpawnItem::Spawn(kind) => (0, Some(kind)),
        _ => (page, None),
    }
}

/// What the menu calls a kind.
pub open spec fn menu_name(kind: DriverNodeKind) -> Seq<char> {
    match kind {
        DriverNodeKind::Remap => "Remap 0–1"@,
        DriverNodeKind::QuatAngle => "Quat Angle °"@,
        _ => kind.title_of(),
    }
}

/// What the menu calls a kind.
pub fn menu_label(kind: DriverNodeKind) -> (r: &'static str)
    ensures
        r@ == menu_name(kind),
{
    match kind {
        DriverNodeKind::Remap => "Remap 0–1",
        DriverNodeKind::QuatAngle => "Quat Angle °",
        _ => kind.title(),
    }
}

/// The page on which a kind is offered.
pub open spec fn home_page(kind: DriverNodeKind) -> u8 {
    match kind {
        DriverNodeKind::BoneGet | DriverNodeKind::BoneSet | DriverNodeKind::MorphSet => 0,
        DriverNodeKind::Float | DriverNodeKind::Vec3 | DriverNodeKind::QuatEuler => 1,
        DriverNodeKind::Remap
        | DriverNodeKind::MapRange
        | DriverNodeKind::Clamp
        | DriverNodeKind::Add
        | DriverNodeKind::Mul => 2,
        DriverNodeKind::CombineVec3
        | DriverNodeKind::SplitVec3
        | DriverNodeKind::Vec3Add
        | DriverNodeKind::Vec3Scale
        | DriverNodeKind::Vec3Length
        | DriverNodeKind::Vec3Normalize => 3,
        _ => 4,
    }
}

/// Place of a kind on its page.
pub open spec fn home_line(kind: DriverNodeKind) -> int {
    match kind {
        DriverNodeKind::BoneGet => 0,
        DriverNodeKind::BoneSet => 1,
        DriverNodeKind::MorphSet => 2,
        DriverNodeKind::Float => 3,
        DriverNodeKind::Vec3 => 4,
        DriverNodeKind::QuatEuler => 5,
        DriverNodeKind::Remap => 3,
        DriverNodeKind::MapRange => 4,
        DriverNodeKind::Clamp => 5,
        DriverNodeKind::Add => 6,
        DriverNodeKind::Mul => 7,
        DriverNodeKind::CombineVec3 => 3,
        DriverNodeKind::SplitVec3 => 4,
        DriverNodeKind::Vec3Add => 5,
        DriverNodeKind::Vec3Scale => 6,
        DriverNodeKind::Vec3Length => 7,
        DriverNodeKind::Vec3Normalize => 8,
        DriverNodeKind::QuatMul => 3,
        DriverNodeKind::QuatRotateVec => 4,
        DriverNodeKind::QuatInvert => 5,
        DriverNodeKind::QuatScale => 6,
        DriverNodeKind::QuatAngle => 7,
        DriverNodeKind::QuatToEuler => 8,
    }
}

/// Every kind of node is offered on exactly one page of the menu, and there
/// exactly once.
pub proof fn law_menu_complete(kind: DriverNodeKind, page: u8, i: int)
    requires
        page <= 4,
        0 <= i < menu_page(page).len(),
    ensures
        menu_page(home_page(kind)).contains(SpawnItem::Spawn(kind)),
        menu_page(page)[i] == SpawnItem::Spawn(kind) <==> page == home_page(kind) && i == home_line(
            kind,
        ),
{
    assert(menu_page(home_page(kind))[home_line(kind)] == SpawnItem::Spawn(kind));
    assert(0 <= home_line(kind) < menu_page(home_page(kind)).len());
}

/// From every page but the root there is a way back, and the root leads to
/// every page.
pub proof fn law_menu_navigation(g: SpawnGroup)
    ensures
        menu_page(0).contains(SpawnItem::Submenu(g)),
        menu_page(g.page_of()).contains(SpawnItem::Back),
        menu_page(g.page_of()).contains(SpawnItem::Section(g)),
{
    assert(menu_page(g.page_of())[0] == SpawnItem::Back);
    assert(menu_page(g.page_of())[2] == SpawnItem::Section(g));
    assert(menu_page(0)[3 + g.page_of()] == SpawnItem::Submenu(g));
}

/// The name of a port.
#[derive(Clone, Copy, Debug, PartialEq, Eq, Structural)]
pub enum Port {
    Pos,
    Rot,
    Scale,
    In,
    Value,
    V,
    Q,
    Euler,
    X,
    Y,
    Z,
    A,
    B,
    S,
    T,
    Out,
}

impl Port {
    pub open spec fn text_of(self) -> Seq<char> {
        match self {
            Port::Pos => "pos"@,
            Port::Rot => "rot"@,
            Port::Scale => "scale"@,
            Port::In => "in"@,
            Port::Value => "value"@,
            Port::V => "v"@,
            Port::Q => "q"@,
            Port::Euler => "euler"@,
            Port::X => "x"@,
            Port::Y => "y"@,
            Port::Z => "z"@,
            Port::A => "a"@,
            Port::B => "b"@,
            Port::S => "s"@,
            Port::T => "t"@,
            Port::Out => "out"@,
        }
    }

    pub fn text(self) -> (r: &'static str)
        ensures
            r@ == self.text_of(),
    {
        match self {
            Port::Pos => "pos",
            Port::Rot => "rot",
            Port::Scale => "scale",
            Port::In => "in",
            Port::Value => "value",
            Port::V => "v",
            Port::Q => "q",
            Port::Euler => "euler",
            Port::X => "x",
            Port::Y => "y",
            Port::Z => "z",
            Port::A => "a",
            Port::B => "b",
            Port::S => "s",
            Port::T => "t",
            Port::Out => "out",
        }
    }
}

/// A number that a node body edits.
#[derive(Clone, Copy, Debug, PartialEq, Eq, Structural)]
pub enum Field {
    Value,
    From,
    To,
    InFrom,
    InTo,
    OutFrom,
    OutTo,
    Min,
    Max,
    Weight,
}

impl Field {
    /// The parameter of the node that the field edits.
    pub open spec fn slot_of(self) -> usize {
        match self {
            Field::Value | Field::From | Field::InFrom | Field::Min | Field::Weight => 0,
            Field::To | Field::InTo | Field::Max => 1,
            Field::OutFrom => 2,
            Field::OutTo => 3,
        }
    }

    pub fn slot(self) -> (r: usize)
        ensures
            r == self.slot_of(),
            r < 4,
    {
        match self {
            Field::Value | Field::From | Field::InFrom | Field::Min | Field::Weight => 0,
            Field::To | Field::InTo | Field::Max => 1,
            Field::OutFrom => 2,
            Field::OutTo => 3,
        }
    }

    /// What the name of the widget begins with.
    pub open spec fn prefix_of(self) -> Seq<char> {
        match self {
            Field::Value => "c_"@,
            Field::From => "from_"@,
            Field::To => "to_"@,
            Field::InFrom => "if_"@,
            Field::InTo => "it_"@,
            Field::OutFrom => "of_"@,
            Field::OutTo => "ot_"@,
            Field::Min => "lo_"@,
            Field::Max => "hi_"@,
            Field::Weight => "qs_"@,
        }
    }

    pub fn prefix(self) -> (r: &'static str)
        ensures
            r@ == self.prefix_of(),
    {
        match self {
            Field::Value => "c_",
            Field::From => "from_",
            Field::To => "to_",
            Field::InFrom => "if_",
            Field::InTo => "it_",
            Field::OutFrom => "of_",
            Field::OutTo => "ot_",
            Field::Min => "lo_",
            Field::Max => "hi_",
            Field::Weight => "qs_",
        }
    }

    /// The word in front of the field, where there is one.
    pub fn label(self) -> (r: Option<&'static str>)
        ensures
            match self {
                Field::From => r matches Some(s) && s@ == "From"@,
                Field::To => r matches Some(s) && s@ == "To"@,
                Field::Min => r matches Some(s) && s@ == "Min"@,
                Field::Max => r matches Some(s) && s@ == "Max"@,
                Field::Weight => r matches Some(s) && s@ == "Weight"@,
                _ => r is None,
            },
    {
        match self {
            Field::From => Some("From"),
            Field::To => Some("To"),
            Field::Min => Some("Min"),
            Field::Max => Some("Max"),
            Field::Weight => Some("Weight"),
            _ => None,
        }
    }
}

/// How the last value is written.
#[derive(Clone, Copy, Debug, PartialEq, Eq, Structural)]
pub enum PreviewForm {
    Plain,
    /// `= value`
    Equals,
    /// `w=value`
    Weight,
    /// `value°`
    Degrees,
}

/// A fixed line of text.
#[derive(Clone, Copy, Debug, PartialEq, Eq, Structural)]
pub enum Note {
    /// `X / Y / Z °`
    Angles,
    /// `In`
    In,
    /// `Out`
    Out,
}

/// One element of a node body, from top to bottom.
#[derive(Clone, Copy, Debug, PartialEq, Eq, Structural)]
pub enum BodyItem {
    Input(Port, PortType),
    Output(Port, PortType),
    /// Choice of bone and space.
    BonePicker,
    /// Tells that the bone carries an IK chain.
    PreIkNote,
    /// Shape key that is driven, and the button that takes the active one.
    MorphPicker,
    Note(Note),
    /// A number dragged at `speed`.
    Number(Field, Scalar),
    /// Three numbers dragged at `speed`: a vector, or angles.
    Triple { angles: bool, speed: Scalar },
    Preview(PreviewForm),
}

/// Bit pattern of `0.1`.
pub const BITS_0_1: u32 = 0x3DCC_CCCD;

/// Bit pattern of `0.5`.
pub const BITS_0_5: u32 = 0x3F00_0000;

pub open spec fn number(f: Field, speed: u32) -> BodyItem {
    BodyItem::Number(f, Scalar { bits: speed })
}

/// The body of a node of kind `kind`.
pub open spec fn body_of(kind: DriverNodeKind) -> Seq<BodyItem> {
    let plain = BodyItem::Preview(PreviewForm::Plain);
    let equals = BodyItem::Preview(PreviewForm::Equals);
    let in_f = BodyItem::Input(Port::In, PortType::Float);
    let out_f = BodyItem::Output(Port::Out, PortType::Float);
    let out_v = BodyItem::Output(Port::Out, PortType::Vec3);
    let out_q = BodyItem::Output(Port::Out, PortType::Quat);
    let in_v = BodyItem::Input(Port::V, PortType::Vec3);
    let in_q = BodyItem::Input(Port::Q, PortType::Quat);
    match kind {
        DriverNodeKind::BoneGet => seq![
            BodyItem::Output(Port::Pos, PortType::Vec3),
            BodyItem::Output(Port::Rot, PortType::Quat),
            BodyItem::Output(Port::Scale, PortType::Vec3),
            BodyItem::BonePicker,
            plain,
        ],
        DriverNodeKind::BoneSet => seq![
            BodyItem::Input(Port::Pos, PortType::Vec3),
            BodyItem::Input(Port::Rot, PortType::Quat),
            BodyItem::Input(Port::Scale, PortType::Vec3),
            BodyItem::BonePicker,
            BodyItem::PreIkNote,
            plain,
        ],
        DriverNodeKind::MorphSet => seq![
            in_f,
            BodyItem::MorphPicker,
            BodyItem::Preview(PreviewForm::Weight),
        ],
        DriverNodeKind::Float => seq![
            BodyItem::Output(Port::Value, PortType::Float),
            number(Field::Value, BITS_0_1),
        ],
        DriverNodeKind::Vec3 => seq![
            BodyItem::Output(Port::V, PortType::Vec3),
            BodyItem::Triple { angles: false, speed: Scalar { bits: BITS_0_1 } },
        ],
        DriverNodeKind::QuatEuler => seq![
            BodyItem::Output(Port::Q, PortType::Quat),
            BodyItem::Note(Note::Angles),
            BodyItem::Triple { angles: true, speed: Scalar { bits: BITS_ONE } },
        ],
        DriverNodeKind::QuatToEuler => seq![
            in_q,
            BodyItem::Note(Note::Angles),
            plain,
            BodyItem::Output(Port::Euler, PortType::Vec3),
            BodyItem::Output(Port::X, PortType::Float),
            BodyItem::Output(Port::Y, PortType::Float),
            BodyItem::Output(Port::Z, PortType::Float),
        ],
        DriverNodeKind::Remap => seq![
            in_f,
            number(Field::From, BITS_0_5),
            number(Field::To, BITS_0_5),
            equals,
            out_f,
        ],
        DriverNodeKind::MapRange => seq![
            in_f,
            BodyItem::Note(Note::In),
            number(Field::InFrom, BITS_0_5),
            number(Field::InTo, BITS_0_5),
            BodyItem::Note(Note::Out),
            number(Field::OutFrom, BITS_0_5),
            number(Field::OutTo, BITS_0_5),
            equals,
            out_f,
        ],
        DriverNodeKind::Clamp => seq![
            in_f,
            number(Field::Min, BITS_0_05),
            number(Field::Max, BITS_0_05),
            equals,
            out_f,
        ],
        DriverNodeKind::Add | DriverNodeKind::Mul => seq![
            BodyItem::Input(Port::A, PortType::Float),
            BodyItem::Input(Port::B, PortType::Float),
            equals,
            out_f,
        ],
        DriverNodeKind::CombineVec3 => seq![
            BodyItem::Input(Port::X, PortType::Float),
            BodyItem::Input(Port::Y, PortType::Float),
            BodyItem::Input(Port::Z, PortType::Float),
            plain,
            out_v,
        ],
        DriverNodeKind::SplitVec3 => seq![
            in_v,
            plain,
            BodyItem::Output(Port::X, PortType::Float),
            BodyItem::Output(Port::Y, PortType::Float),
            BodyItem::Output(Port::Z, PortType::Float),
        ],
        DriverNodeKind::Vec3Add => seq![
            BodyItem::Input(Port::A, PortType::Vec3),
            BodyItem::Input(Port::B, PortType::Vec3),
            plain,
            out_v,
        ],
        DriverNodeKind::Vec3Scale => seq![
            in_v,
            BodyItem::Input(Port::S, PortType::Float),
            plain,
            out_v,
        ],
        DriverNodeKind::Vec3Length => seq![in_v, plain, out_f],
        DriverNodeKind::Vec3Normalize => seq![in_v, plain, out_v],
        DriverNodeKind::QuatMul => seq![
            BodyItem::Input(Port::A, PortType::Quat),
            BodyItem::Input(Port::B, PortType::Quat),
            plain,
            out_q,
        ],
        DriverNodeKind::QuatRotateVec => seq![in_q, in_v, plain, out_v],
        DriverNodeKind::QuatInvert => seq![in_q, plain, out_q],
        DriverNodeKind::QuatScale => seq![
            in_q,
            BodyItem::Input(Port::T, PortType::Float),
            number(Field::Weight, BITS_0_01),
            plain,
            out_q,
        ],
        DriverNodeKind::QuatAngle => seq![
            BodyItem::Input(Port::A, PortType::Quat),
            BodyItem::Input(Port::B, PortType::Quat),
            BodyItem::Preview(PreviewForm::Degrees),
            out_f,
        ],
    }
}

fn num(f: Field, speed: u32) -> (r: BodyItem)
    ensures
        r == number(f, speed),
{
    BodyItem::Number(f, Scalar { bits: speed })
}

/// The body of a node of kind `kind`, from top to bottom.
pub fn draw_driver_node_body(kind: DriverNodeKind) -> (r: Vec<BodyItem>)
    ensures
        r@ == body_of(kind),
{
    let plain = BodyItem::Preview(PreviewForm::Plain);
    let equals = BodyItem::Preview(PreviewForm::Equals);
    let in_f = BodyItem::Input(Port::In, PortType::Float);
    let out_f = BodyItem::Output(Port::Out, PortType::Float);
    let out_v = BodyItem::Output(Port::Out, PortType::Vec3);
    let out_q = BodyItem::Output(Port::Out, PortType::Quat);
    let in_v = BodyItem::Input(Port::V, PortType::Vec3);
    let in_q = BodyItem::Input(Port::Q, PortType::Quat);
    let r: Vec<BodyItem> = match kind {
        DriverNodeKind::BoneGet => vec![
            BodyItem::Output(Port::Pos, PortType::Vec3),
            BodyItem::Output(Port::Rot, PortType::Quat),
            BodyItem::Output(Port::Scale, PortType::Vec3),
            BodyItem::BonePicker,
            plain,
        ],
        DriverNodeKind::BoneSet => vec![
            BodyItem::Input(Port::Pos, PortType::Vec3),
            BodyItem::Input(Port::Rot, PortType::Quat),
            BodyItem::Input(Port::Scale, PortType::Vec3),
            BodyItem::BonePicker,
            BodyItem::PreIkNote,
            plain,
        ],
        DriverNodeKind::MorphSet => vec![
            in_f,
            BodyItem::MorphPicker,
            BodyItem::Preview(PreviewForm::Weight),
        ],
        DriverNodeKind::Float => vec![
            BodyItem::Output(Port::Value, PortType::Float),
            num(Field::Value, BITS_0_1),
        ],
        DriverNodeKind::Vec3 => vec![
            BodyItem::Output(Port::V, PortType::Vec3),
            BodyItem::Triple { angles: false, speed: Scalar { bits: BITS_0_1 } },
        ],
        DriverNodeKind::QuatEuler => vec![
            BodyItem::Output(Port::Q, PortType::Quat),
            BodyItem::Note(Note::Angles),
            BodyItem::Triple { angles: true, speed: Scalar { bits: BITS_ONE } },
        ],
        DriverNodeKind::QuatToEuler => vec![
            in_q,
            BodyItem::Note(Note::Angles),
            plain,
            BodyItem::Output(Port::Euler, PortType::Vec3),
            BodyItem::Output(Port::X, PortType::Float),
            BodyItem::Output(Port::Y, PortType::Float),
            BodyItem::Output(Port::Z, PortType::Float),
        ],
        DriverNodeKind::Remap => vec![
            in_f,
            num(Field::From, BITS_0_5),
            num(Field::To, BITS_0_5),
            equals,
            out_f,
        ],
        DriverNodeKind::MapRange => vec![
            in_f,
            BodyItem::Note(Note::In),
            num(Field::InFrom, BITS_0_5),
            num(Field::InTo, BITS_0_5),
            BodyItem::Note(Note::Out),
            num(Field::OutFrom, BITS_0_5),
            num(Field::OutTo, BITS_0_5),
            equals,
            out_f,
        ],
        DriverNodeKind::Clamp => vec![
            in_f,
            num(Field::Min, BITS_0_05),
            num(Field::Max, BITS_0_05),
            equals,
            out_f,
        ],
        DriverNodeKind::Add | DriverNodeKind::Mul => vec![
            BodyItem::Input(Port::A, PortType::Float),
            BodyItem::Input(Port::B, PortType::Float),
            equals,
            out_f,
        ],
        DriverNodeKind::CombineVec3 => vec![
            BodyItem::Input(Port::X, PortType::Float),
            BodyItem::Input(Port::Y, PortType::Float),
            BodyItem::Input(Port::Z, PortType::Float),
            plain,
            out_v,
        ],
        DriverNodeKind::SplitVec3 => vec![
            in_v,
            plain,
            BodyItem::Output(Port::X, PortType::Float),
            BodyItem::Output(Port::Y, PortType::Float),
            BodyItem::Output(Port::Z, PortType::Float),
        ],
        DriverNodeKind::Vec3Add => vec![
            BodyItem::Input(Port::A, PortType::Vec3),
            BodyItem::Input(Port::B, PortType::Vec3),
            plain,
            out_v,
        ],
        DriverNodeKind::Vec3Scale => vec![
            in_v,
            BodyItem::Input(Port::S, PortType::Float),
            plain,
            out_v,
        ],
        DriverNodeKind::Vec3Length => vec![in_v, plain, out_f],
        DriverNodeKind::Vec3Normalize => vec![in_v, plain, out_v],
        DriverNodeKind::QuatMul => vec![
            BodyItem::Input(Port::A, PortType::Quat),
            BodyItem::Input(Port::B, PortType::Quat),
            plain,
            out_q,
        ],
        DriverNodeKind::QuatRotateVec => vec![in_q, in_v, plain, out_v],
        DriverNodeKind::QuatInvert => vec![in_q, plain, out_q],
        DriverNodeKind::QuatScale => vec![
            in_q,
            BodyItem::Input(Port::T, PortType::Float),
            num(Field::Weight, BITS_0_01),
            plain,
            out_q,
        ],
        DriverNodeKind::QuatAngle => vec![
            BodyItem::Input(Port::A, PortType::Quat),
            BodyItem::Input(Port::B, PortType::Quat),
            BodyItem::Preview(PreviewForm::Degrees),
            out_f,
        ],
    };
    assert(r@ =~= body_of(kind));
    r
}

/// Every output port that a body shows has the type that links from it carry.
pub proof fn law_ports_typed(kind: DriverNodeKind, i: int)
    requires
        0 <= i < body_of(kind).len(),
        body_of(kind)[i] is Output,
    ensures
        kind.port_type_of(body_of(kind)[i]->Output_0.text_of()) == body_of(kind)[i]->Output_1,
{
    lemma_port_names();
}

/// The names of output ports differ where a kind tells them apart.
proof fn lemma_port_names()
    ensures
        "rot"@ != "pos"@,
        "rot"@ != "scale"@,
        "x"@ != "euler"@,
        "y"@ != "euler"@,
        "z"@ != "euler"@,
{
    reveal_strlit("rot");
    reveal_strlit("pos");
    reveal_strlit("scale");
    reveal_strlit("x");
    reveal_strlit("y");
    reveal_strlit("z");
    reveal_strlit("euler");
    assert("rot"@[0] == 'r' && "pos"@[0] == 'p' && "scale"@[0] == 's');
    assert("x"@.len() == 1 && "y"@.len() == 1 && "z"@.len() == 1 && "euler"@.len() == 5);
}

/// The last value as the body shows it; nothing before there is one.
pub open spec fn preview_text(form: PreviewForm, preview: Seq<char>) -> Option<Seq<char>> {
    if preview.len() == 0 {
        None
    } else {
        Some(
            match form {
                PreviewForm::Plain => preview,
                PreviewForm::Equals => "= "@ + preview,
                PreviewForm::Weight => "w="@ + preview,
                PreviewForm::Degrees => preview + "°"@,
            },
        )
    }
}

/// The last value as the body shows it.
pub fn preview_line(form: PreviewForm, preview: &str) -> (r: Option<String>)
    ensures
        match r {
            Some(s) => preview_text(form, preview@) == Some(s@),
            None => preview_text(form, preview@) is None,
        },
{
    let chars = crate::text::chars_of(preview);
    if chars.len() == 0 {
        return None;
    }
    Some(
        match form {
            PreviewForm::Plain => preview.to_owned(),
            PreviewForm::Equals => crate::text::join("= ", preview),
            PreviewForm::Weight => crate::text::join("w=", preview),
            PreviewForm::Degrees => crate::text::join(preview, "°"),
        },
    )
}

} // verus!
