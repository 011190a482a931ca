//! The vocabulary of driver graphs: coordinate spaces, node kinds, their names,
//! and the types of their ports.

use vstd::prelude::*;
use crate::text::{chars_of, lower, lower_char, lower_of, lowered, same_text, string_of, trim};
use crate::text::{trim_of, white};

verus! {

#[derive(Clone, Copy, Debug, PartialEq, Eq, Structural)]
pub enum DriverSpace {
    Local,
    World,
    /// Local relative to bind: `bind⁻¹ * local` (rot), `local - bind` (pos), `local / bind` (scale).
    BindOffset,
}

/// The space that a lower-case word without outer white space names.
pub open spec fn space_named(k: Seq<char>) -> Option<DriverSpace> {
    if k == "local"@ {
        Some(DriverSpace::Local)
    } else if k == "world"@ {
        Some(DriverSpace::World)
    } else if k == "offset"@ || k == "bind_offset"@ || k == "bindoffset"@ {
        Some(DriverSpace::BindOffset)
    } else {
        None
    }
}

impl DriverSpace {
    /// All spaces, in the order in which menus list them.
    pub open spec fn order() -> Seq<DriverSpace> {
        seq![DriverSpace::Local, DriverSpace::World, DriverSpace::BindOffset]
    }

    pub fn all() -> (r: [DriverSpace; 3])
        ensures
            r@ == Self::order(),
    {
        [DriverSpace::Local, DriverSpace::World, DriverSpace::BindOffset]
    }

    pub open spec fn index_of(self) -> int {
        match self {
            DriverSpace::Local => 0,
            DriverSpace::World => 1,
            DriverSpace::BindOffset => 2,
        }
    }

    pub open spec fn label_of(self) -> Seq<char> {
        match self {
            DriverSpace::Local => "Local"@,
            DriverSpace::World => "World"@,
            DriverSpace::BindOffset => "Offset"@,
        }
    }

    pub open spec fn slug_of(self) -> Seq<char> {
        match self {
            DriverSpace::Local => "local"@,
            DriverSpace::World => "world"@,
            DriverSpace::BindOffset => "offset"@,
        }
    }

    pub fn index(self) -> (r: usize)
        ensures
            r == self.index_of(),
    {
        match self {
            DriverSpace::Local => 0,
            DriverSpace::World => 1,
            DriverSpace::BindOffset => 2,
        }
    }

    pub fn label(self) -> (r: &'static str)
        ensures
            r@ == self.label_of(),
    {
        match self {
            DriverSpace::Local => "Local",
            DriverSpace::World => "World",
            DriverSpace::BindOffset => "Offset",
        }
    }

    /// Reads a space from its slug, its label or a spelling of either.
    pub fn from_name(s: &str) -> (r: Option<Self>)
        ensures
            r == space_named(lower_of(trim_of(s@))),
    {
        let k = string_of(&lowered(&trim(&chars_of(s))));
        if same_text(&k, "local") {
            Some(Self::Local)
        } else if same_text(&k, "world") {
            Some(Self::World)
        } else if same_text(&k, "offset") || same_text(&k, "bind_offset") || same_text(
            &k,
            "bindoffset",
        ) {
            Some(Self::BindOffset)
        } else {
            None
        }
    }

    pub fn slug(self) -> (r: &'static str)
        ensures
            r@ == self.slug_of(),
    {
        match self {
            Self::Local => "local",
            Self::World => "world",
            Self::BindOffset => "offset",
        }
    }
}

#[derive(Clone, Copy, Debug, PartialEq, Eq, Structural)]
pub enum DriverNodeKind {
    BoneGet,
    BoneSet,
    MorphSet,
    Float,
    Vec3,
    QuatEuler,
    /// Quaternion → Euler degrees (pitch, yaw, roll), YXZ — inverse of Quat Euler.
    QuatToEuler,
    Remap,
    MapRange,
    Clamp,
    Add,
    Mul,
    /// Pack three floats into a Vec3.
    CombineVec3,
    /// Split Vec3 into X / Y / Z floats.
    SplitVec3,
    Vec3Add,
    Vec3Scale,
    Vec3Length,
    Vec3Normalize,
    QuatMul,
    QuatRotateVec,
    QuatInvert,
    /// `slerp(identity, q, t)` — scale rotation influence (clavicle follow weight).
    QuatScale,
    /// Angle between two quaternions, in degrees.
    QuatAngle,
}

/// What a port carries.
#[derive(Clone, Copy, Debug, PartialEq, Eq, Structural)]
pub enum PortType {
    Any,
    Float,
    Vec3,
    Quat,
}

/// How one character of a kind's name is read: arrows and crosses are spelled
/// out, blanks and hyphens become underscores, capitals become small.
pub open spec fn name_char(c: char) -> Seq<char> {
    if c == '→' {
        seq!['t', 'o']
    } else if c == '×' {
        seq!['x']
    } else if c == ' ' || c == '-' {
        seq!['_']
    } else {
        seq![lower_char(c)]
    }
}

/// Every character of `s` read by `name_char`.
pub open spec fn spelled(s: Seq<char>) -> Seq<char>
    decreases s.len(),
{
    if s.len() == 0 {
        Seq::empty()
    } else {
        spelled(s.drop_last()) + name_char(s.last())
    }
}

/// `s` with every run of underscores shortened to one.
pub open spec fn single_underscores(s: Seq<char>) -> Seq<char>
    decreases s.len(),
{
    if s.len() == 0 {
        Seq::empty()
    } else {
        let r = single_underscores(s.drop_last());
        if s.last() == '_' && r.len() > 0 && r.last() == '_' {
            r
        } else {
            r.push(s.last())
        }
    }
}

/// The form in which names of kinds are compared.
pub open spec fn plain_name(s: Seq<char>) -> Seq<char> {
    single_underscores(spelled(trim_of(s)))
}

/// The kind that a name in its plain form stands for.
pub open spec fn kind_named(k: Seq<char>) -> Option<DriverNodeKind> {
    if k == "bone_get"@ || k == "get_bone"@ {
        Some(DriverNodeKind::BoneGet)
    } else if k == "bone_set"@ || k == "set_bone"@ {
        Some(DriverNodeKind::BoneSet)
    } else if k == "morph_set"@ || k == "set_morph"@ {
        Some(DriverNodeKind::MorphSet)
    } else if k == "float"@ {
        Some(DriverNodeKind::Float)
    } else if k == "vec3"@ {
        Some(DriverNodeKind::Vec3)
    } else if k == "quat_euler"@ || k == "quateuler"@ {
        Some(DriverNodeKind::QuatEuler)
    } else if k == "quat_to_euler"@ || k == "quat_euler_out"@ {
        Some(DriverNodeKind::QuatToEuler)
    } else if k == "remap"@ {
        Some(DriverNodeKind::Remap)
    } else if k == "map_range"@ || k == "maprange"@ {
        Some(DriverNodeKind::MapRange)
    } else if k == "clamp"@ {
        Some(DriverNodeKind::Clamp)
    } else if k == "add"@ {
        Some(DriverNodeKind::Add)
    } else if k == "mul"@ || k == "multiply"@ {
        Some(DriverNodeKind::Mul)
    } else if k == "combine_vec3"@ || k == "combine_xyz"@ || k == "combinexyz"@ {
        Some(DriverNodeKind::CombineVec3)
    } else if k == "split_vec3"@ || k == "split_xyz"@ || k == "splitxyz"@ {
        Some(DriverNodeKind::SplitVec3)
    } else if k == "vec3_add"@ {
        Some(DriverNodeKind::Vec3Add)
    } else if k == "vec3_scale"@ {
        Some(DriverNodeKind::Vec3Scale)
    } else if k == "vec3_length"@ || k == "length"@ {
        Some(DriverNodeKind::Vec3Length)
    } else if k == "vec3_normalize"@ || k == "normalize"@ {
        Some(DriverNodeKind::Vec3Normalize)
    } else if k == "quat_mul"@ {
        Some(DriverNodeKind::QuatMul)
    } else if k == "quat_rotate_vec"@ || k == "quat_x_vec"@ {
        Some(DriverNodeKind::QuatRotateVec)
    } else if k == "quat_invert"@ {
        Some(DriverNodeKind::QuatInvert)
    } else if k == "quat_scale"@ {
        Some(DriverNodeKind::QuatScale)
    } else if k == "quat_angle"@ {
        Some(DriverNodeKind::QuatAngle)
    } else {
        None
    }
}

/// The plain form of a name.
fn plain(s: &str) -> (r: String)
    ensures
        r@ == plain_name(s@),
{
    let t = trim(&chars_of(s));
    let mut out: Vec<char> = Vec::new();
    let mut i: usize = 0;
    while i < t.len()
        invariant
            i <= t@.len(),
            out@ == spelled(t@.take(i as int)),
        decreases t.len() - i,
    {
        let c = t[i];
        assert(t@.take(i as int + 1).drop_last() =~= t@.take(i as int));
        if c == '→' {
            out.push('t');
            out.push('o');
        } else if c == '×' {
            out.push('x');
        } else if c == ' ' || c == '-' {
            out.push('_');
        } else {
            out.push(lower(c));
        }
        assert(out@ =~= spelled(t@.take(i as int)) + name_char(c));
        i = i + 1;
    }
    assert(t@.take(i as int) =~= t@);
    let mut r: Vec<char> = Vec::new();
    let mut j: usize = 0;
    while j < out.len()
        invariant
            j <= out@.len(),
            r@ == single_underscores(out@.take(j as int)),
        decreases out.len() - j,
    {
        let c = out[j];
        assert(out@.take(j as int + 1).drop_last() =~= out@.take(j as int));
        if !(c == '_' && r.len() > 0 && r[r.len() - 1] == '_') {
            r.push(c);
        }
        j = j + 1;
    }
    assert(out@.take(j as int) =~= out@);
    string_of(&r)
}

impl DriverNodeKind {
    pub open spec fn title_of(self) -> Seq<char> {
        match self {
            DriverNodeKind::BoneGet => "Get Bone"@,
            DriverNodeKind::BoneSet => "Set Bone"@,
            DriverNodeKind::MorphSet => "Set Morph"@,
            DriverNodeKind::Float => "Float"@,
            DriverNodeKind::Vec3 => "Vec3"@,
            DriverNodeKind::QuatEuler => "Quat Euler"@,
            DriverNodeKind::QuatToEuler => "Quat → Euler"@,
            DriverNodeKind::Remap => "Remap"@,
            DriverNodeKind::MapRange => "Map Range"@,
            DriverNodeKind::Clamp => "Clamp"@,
            DriverNodeKind::Add => "Add"@,
            DriverNodeKind::Mul => "Mul"@,
            DriverNodeKind::CombineVec3 => "Combine XYZ"@,
            DriverNodeKind::SplitVec3 => "Split XYZ"@,
            DriverNodeKind::Vec3Add => "Vec3 Add"@,
            DriverNodeKind::Vec3Scale => "Vec3 Scale"@,
            DriverNodeKind::Vec3Length => "Length"@,
            DriverNodeKind::Vec3Normalize => "Normalize"@,
            DriverNodeKind::QuatMul => "Quat Mul"@,
            DriverNodeKind::QuatRotateVec => "Quat × Vec"@,
            DriverNodeKind::QuatInvert => "Quat Invert"@,
            DriverNodeKind::QuatScale => "Quat Scale"@,
            DriverNodeKind::QuatAngle => "Quat Angle"@,
        }
    }

    pub open spec fn slug_of(self) -> Seq<char> {
        match self {
            DriverNodeKind::BoneGet => "bone_get"@,
            DriverNodeKind::BoneSet => "bone_set"@,
            DriverNodeKind::MorphSet => "morph_set"@,
            DriverNodeKind::Float => "float"@,
            DriverNodeKind::Vec3 => "vec3"@,
            DriverNodeKind::QuatEuler => "quat_euler"@,
            DriverNodeKind::QuatToEuler => "quat_to_euler"@,
            DriverNodeKind::Remap => "remap"@,
            DriverNodeKind::MapRange => "map_range"@,
            DriverNodeKind::Clamp => "clamp"@,
            DriverNodeKind::Add => "add"@,
            DriverNodeKind::Mul => "mul"@,
            DriverNodeKind::CombineVec3 => "combine_vec3"@,
            DriverNodeKind::SplitVec3 => "split_vec3"@,
            DriverNodeKind::Vec3Add => "vec3_add"@,
            DriverNodeKind::Vec3Scale => "vec3_scale"@,
            DriverNodeKind::Vec3Length => "vec3_length"@,
            DriverNodeKind::Vec3Normalize => "vec3_normalize"@,
            DriverNodeKind::QuatMul => "quat_mul"@,
            DriverNodeKind::QuatRotateVec => "quat_rotate_vec"@,
            DriverNodeKind::QuatInvert => "quat_invert"@,
            DriverNodeKind::QuatScale => "quat_scale"@,
            DriverNodeKind::QuatAngle => "quat_angle"@,
        }
    }

    pub fn title(self) -> (r: &'static str)
        ensures
            r@ == self.title_of(),
    {
        match self {
            DriverNodeKind::BoneGet => "Get Bone",
            DriverNodeKind::BoneSet => "Set Bone",
            DriverNodeKind::MorphSet => "Set Morph",
            DriverNodeKind::Float => "Float",
            DriverNodeKind::Vec3 => "Vec3",
            DriverNodeKind::QuatEuler => "Quat Euler",
            DriverNodeKind::QuatToEuler => "Quat → Euler",
            DriverNodeKind::Remap => "Remap",
            DriverNodeKind::MapRange => "Map Range",
            DriverNodeKind::Clamp => "Clamp",
            DriverNodeKind::Add => "Add",
            DriverNodeKind::Mul => "Mul",
            DriverNodeKind::CombineVec3 => "Combine XYZ",
            DriverNodeKind::SplitVec3 => "Split XYZ",
            DriverNodeKind::Vec3Add => "Vec3 Add",
            DriverNodeKind::Vec3Scale => "Vec3 Scale",
            DriverNodeKind::Vec3Length => "Length",
            DriverNodeKind::Vec3Normalize => "Normalize",
            DriverNodeKind::QuatMul => "Quat Mul",
            DriverNodeKind::QuatRotateVec => "Quat × Vec",
            DriverNodeKind::QuatInvert => "Quat Invert",
            DriverNodeKind::QuatScale => "Quat Scale",
            DriverNodeKind::QuatAngle => "Quat Angle",
        }
    }

    /// Reads a kind from its slug, its title or a spelling of either.
    pub fn from_name(s: &str) -> (r: Option<Self>)
        ensures
            r == kind_named(plain_name(s@)),
    {
        let k = plain(s);
        if same_text(&k, "bone_get") || same_text(&k, "get_bone") {
            Some(Self::BoneGet)
        } else if same_text(&k, "bone_set") || same_text(&k, "set_bone") {
            Some(Self::BoneSet)
        } else if same_text(&k, "morph_set") || same_text(&k, "set_morph") {
            Some(Self::MorphSet)
        } else if same_text(&k, "float") {
            Some(Self::Float)
        } else if same_text(&k, "vec3") {
            Some(Self::Vec3)
        } else if same_text(&k, "quat_euler") || same_text(&k, "quateuler") {
            Some(Self::QuatEuler)
        } else if same_text(&k, "quat_to_euler") || same_text(&k, "quat_euler_out") {
            Some(Self::QuatToEuler)
        } else if same_text(&k, "remap") {
            Some(Self::Remap)
        } else if same_text(&k, "map_range") || same_text(&k, "maprange") {
            Some(Self::MapRange)
        } else if same_text(&k, "clamp") {
            Some(Self::Clamp)
        } else if same_text(&k, "add") {
            Some(Self::Add)
        } else if same_text(&k, "mul") || same_text(&k, "multiply") {
            Some(Self::Mul)
        } else if same_text(&k, "combine_vec3") || same_text(&k, "combine_xyz") || same_text(
            &k,
            "combinexyz",
        ) {
            Some(Self::CombineVec3)
        } else if same_text(&k, "split_vec3") || same_text(&k, "split_xyz") || same_text(
            &k,
            "splitxyz",
        ) {
            Some(Self::SplitVec3)
        } else if same_text(&k, "vec3_add") {
            Some(Self::Vec3Add)
        } else if same_text(&k, "vec3_scale") {
            Some(Self::Vec3Scale)
        } else if same_text(&k, "vec3_length") || same_text(&k, "length") {
            Some(Self::Vec3Length)
        } else if same_text(&k, "vec3_normalize") || same_text(&k, "normalize") {
            Some(Self::Vec3Normalize)
        } else if same_text(&k, "quat_mul") {
            Some(Self::QuatMul)
        } else if same_text(&k, "quat_rotate_vec") || same_text(&k, "quat_x_vec") {
            Some(Self::QuatRotateVec)
        } else if same_text(&k, "quat_invert") {
            Some(Self::QuatInvert)
        } else if same_text(&k, "quat_scale") {
            Some(Self::QuatScale)
        } else if same_text(&k, "quat_angle") {
            Some(Self::QuatAngle)
        } else {
            None
        }
    }

    pub fn slug(self) -> (r: &'static str)
        ensures
            r@ == self.slug_of(),
    {
        match self {
            Self::BoneGet => "bone_get",
            Self::BoneSet => "bone_set",
            Self::MorphSet => "morph_set",
            Self::Float => "float",
            Self::Vec3 => "vec3",
            Self::QuatEuler => "quat_euler",
            Self::QuatToEuler => "quat_to_euler",
            Self::Remap => "remap",
            Self::MapRange => "map_range",
            Self::Clamp => "clamp",
            Self::Add => "add",
            Self::Mul => "mul",
            Self::CombineVec3 => "combine_vec3",
            Self::SplitVec3 => "split_vec3",
            Self::Vec3Add => "vec3_add",
            Self::Vec3Scale => "vec3_scale",
            Self::Vec3Length => "vec3_length",
            Self::Vec3Normalize => "vec3_normalize",
            Self::QuatMul => "quat_mul",
            Self::QuatRotateVec => "quat_rotate_vec",
            Self::QuatInvert => "quat_invert",
            Self::QuatScale => "quat_scale",
            Self::QuatAngle => "quat_angle",
        }
    }

    /// What the output `port` of a node of this kind carries.
    pub open spec fn port_type_of(self, port: Seq<char>) -> PortType {
        match self {
            DriverNodeKind::BoneGet => if port == "pos"@ || port == "scale"@ {
                PortType::Vec3
            } else if port == "rot"@ {
                PortType::Quat
            } else {
                PortType::Any
            },
            DriverNodeKind::Float => if port == "value"@ {
                PortType::Float
            } else {
                PortType::Any
            },
            DriverNodeKind::Vec3 => if port == "v"@ {
                PortType::Vec3
            } else {
                PortType::Any
            },
            DriverNodeKind::QuatEuler => if port == "q"@ {
                PortType::Quat
            } else {
                PortType::Any
            },
            DriverNodeKind::QuatToEuler => if port == "euler"@ {
                PortType::Vec3
            } else if port == "x"@ || port == "y"@ || port == "z"@ {
                PortType::Float
            } else {
                PortType::Any
            },
            DriverNodeKind::Remap
            | DriverNodeKind::MapRange
            | DriverNodeKind::Clamp
            | DriverNodeKind::Add
            | DriverNodeKind::Mul
            | DriverNodeKind::Vec3Length
            | DriverNodeKind::QuatAngle => if port == "out"@ {
                PortType::Float
            } else {
                PortType::Any
            },
            DriverNodeKind::CombineVec3
            | DriverNodeKind::Vec3Add
            | DriverNodeKind::Vec3Scale
            | DriverNodeKind::Vec3Normalize
            | DriverNodeKind::QuatRotateVec => if port == "out"@ {
                PortType::Vec3
            } else {
                PortType::Any
            },
            DriverNodeKind::SplitVec3 => if port == "x"@ || port == "y"@ || port == "z"@ {
                PortType::Float
            } else {
                PortType::Any
            },
            DriverNodeKind::QuatMul
            | DriverNodeKind::QuatInvert
            | DriverNodeKind::QuatScale => if port == "out"@ {
                PortType::Quat
            } else {
                PortType::Any
            },
            DriverNodeKind::BoneSet | DriverNodeKind::MorphSet => PortType::Any,
        }
    }

    pub fn output_port_type(self, port: &str) -> (r: PortType)
        ensures
            r == self.port_type_of(port@),
    {
        match self {
            Self::BoneGet => if same_text(port, "pos") || same_text(port, "scale") {
                PortType::Vec3
            } else if same_text(port, "rot") {
                PortType::Quat
            } else {
                PortType::Any
            },
            Self::Float => if same_text(port, "value") {
                PortType::Float
            } else {
                PortType::Any
            },
            Self::Vec3 => if same_text(port, "v") {
                PortType::Vec3
            } else {
                PortType::Any
            },
            Self::QuatEuler => if same_text(port, "q") {
                PortType::Quat
            } else {
                PortType::Any
            },
            Self::QuatToEuler => if same_text(port, "euler") {
                PortType::Vec3
            } else if same_text(port, "x") || same_text(port, "y") || same_text(port, "z") {
                PortType::Float
            } else {
                PortType::Any
            },
            Self::Remap
            | Self::MapRange
            | Self::Clamp
            | Self::Add
            | Self::Mul
            | Self::Vec3Length
            | Self::QuatAngle => if same_text(port, "out") {
                PortType::Float
            } else {
                PortType::Any
            },
            Self::CombineVec3
            | Self::Vec3Add
            | Self::Vec3Scale
            | Self::Vec3Normalize
            | Self::QuatRotateVec => if same_text(port, "out") {
                PortType::Vec3
            } else {
                PortType::Any
            },
            Self::SplitVec3 => if same_text(port, "x") || same_text(port, "y") || same_text(
                port,
                "z",
            ) {
                PortType::Float
            } else {
                PortType::Any
            },
            Self::QuatMul | Self::QuatInvert | Self::QuatScale => if same_text(port, "out") {
                PortType::Quat
            } else {
                PortType::Any
            },
            Self::BoneSet | Self::MorphSet => PortType::Any,
        }
    }
}

/// The place of a space in the menu order is its index.
pub proof fn law_space_index(s: DriverSpace)
    ensures
        0 <= s.index_of() < DriverSpace::order().len(),
        DriverSpace::order()[s.index_of()] == s,
{
}

/// A space is read back from its slug and from its label.
pub proof fn law_space_names(s: DriverSpace)
    ensures
        space_named(lower_of(trim_of(s.slug_of()))) == Some(s),
        space_named(lower_of(trim_of(s.label_of()))) == Some(s),
{
    reveal_strlit("local");
    reveal_strlit("world");
    reveal_strlit("offset");
    reveal_strlit("bind_offset");
    reveal_strlit("bindoffset");
    reveal_strlit("Local");
    reveal_strlit("World");
    reveal_strlit("Offset");
    lemma_trimmed(s.slug_of());
    lemma_trimmed(s.label_of());
    assert(lower_of(s.slug_of()) =~= s.slug_of());
    assert(lower_of(s.label_of()) =~= s.slug_of());
    lemma_slug_is_space(s);
}

proof fn lemma_slug_is_space(s: DriverSpace)
    ensures
        space_named(s.slug_of()) == Some(s),
{
    reveal_strlit("local");
    reveal_strlit("world");
    reveal_strlit("offset");
    assert("local"@[0] == 'l');
    assert("world"@[0] == 'w');
    assert("offset"@[0] == 'o');
}

/// A text that neither begins nor ends with white space is its own trim.
proof fn lemma_trimmed(s: Seq<char>)
    requires
        s.len() > 0,
        !white(s[0]),
        !white(s.last()),
    ensures
        trim_of(s) == s,
{
}

} // verus!
