//! Names of node kinds can be read back: what `slug` and `title` write,
//! `from_name` understands.

use vstd::prelude::*;
use crate::kinds::{kind_named, name_char, plain_name, single_underscores, spelled, DriverNodeKind};
use crate::text::{trim_of, white};

verus! {

/// Position by position reading, where each character stands for one.
proof fn lemma_spelled_by_char(s: Seq<char>)
    requires
        forall|i: int| 0 <= i < s.len() ==> (#[trigger] name_char(s[i])).len() == 1,
    ensures
        spelled(s) == Seq::new(s.len(), |i: int| name_char(s[i])[0]),
    decreases s.len(),
{
    if s.len() > 0 {
        let t = s.drop_last();
        assert forall|i: int| 0 <= i < t.len() implies (#[trigger] name_char(t[i])).len() == 1 by {
            assert(t[i] == s[i]);
            assert(name_char(s[i]).len() == 1);
        }
        lemma_spelled_by_char(t);
        assert(name_char(s[s.len() - 1]).len() == 1);
        assert(spelled(s) =~= Seq::new(s.len(), |i: int| name_char(s[i])[0]));
    } else {
        assert(spelled(s) =~= Seq::new(s.len(), |i: int| name_char(s[i])[0]));
    }
}

/// Without neighbouring underscores there is nothing to shorten.
proof fn lemma_single_already(s: Seq<char>)
    requires
        forall|i: int| 0 < i < s.len() && #[trigger] s[i] == '_' ==> s[i - 1] != '_',
    ensures
        single_underscores(s) == s,
    decreases s.len(),
{
    if s.len() > 0 {
        let t = s.drop_last();
        assert forall|i: int| 0 < i < t.len() && #[trigger] t[i] == '_' implies t[i - 1] != '_' by {
            assert(t[i] == s[i]);
        }
        lemma_single_already(t);
        assert(t.push(s.last()) =~= s);
        if s.last() == '_' && t.len() > 0 {
            assert(s[s.len() - 1] == '_');
        }
    }
}

/// A text read character by character into `t`, a text without neighbouring
/// underscores, has the plain form `t`.
proof fn lemma_plain(s: Seq<char>, t: Seq<char>)
    requires
        s.len() > 0,
        !white(s[0]),
        !white(s.last()),
        s.len() == t.len(),
        forall|i: int| 0 <= i < s.len() ==> #[trigger] name_char(s[i]) == seq![t[i]],
        forall|i: int| 0 < i < t.len() && #[trigger] t[i] == '_' ==> t[i - 1] != '_',
    ensures
        plain_name(s) == t,
{
    assert(trim_of(s) == s);
    lemma_spelled_by_char(s);
    assert(spelled(s) =~= t);
    lemma_single_already(t);
}

/// The plain names that slugs and titles are read as, and their kinds.
proof fn lemma_named(k: DriverNodeKind)
    ensures
        kind_named(k.slug_of()) == Some(k),
        kind_named("get_bone"@) == Some(DriverNodeKind::BoneGet),
        kind_named("set_bone"@) == Some(DriverNodeKind::BoneSet),
        kind_named("set_morph"@) == Some(DriverNodeKind::MorphSet),
        kind_named("combine_xyz"@) == Some(DriverNodeKind::CombineVec3),
        kind_named("split_xyz"@) == Some(DriverNodeKind::SplitVec3),
        kind_named("length"@) == Some(DriverNodeKind::Vec3Length),
        kind_named("normalize"@) == Some(DriverNodeKind::Vec3Normalize),
        kind_named("quat_x_vec"@) == Some(DriverNodeKind::QuatRotateVec),
{
    reveal_strlit("bone_get");
    reveal_strlit("get_bone");
    reveal_strlit("bone_set");
    reveal_strlit("set_bone");
    reveal_strlit("morph_set");
    reveal_strlit("set_morph");
    reveal_strlit("float");
    reveal_strlit("vec3");
    reveal_strlit("quat_euler");
    reveal_strlit("quateuler");
    reveal_strlit("quat_to_euler");
    reveal_strlit("quat_euler_out");
    reveal_strlit("remap");
    reveal_strlit("map_range");
    reveal_strlit("maprange");
    reveal_strlit("clamp");
    reveal_strlit("add");
    reveal_strlit("mul");
    reveal_strlit("multiply");
    reveal_strlit("combine_vec3");
    reveal_strlit("combine_xyz");
    reveal_strlit("combinexyz");
    reveal_strlit("split_vec3");
    reveal_strlit("split_xyz");
    reveal_strlit("splitxyz");
    reveal_strlit("vec3_add");
    reveal_strlit("vec3_scale");
    reveal_strlit("vec3_length");
    reveal_strlit("length");
    reveal_strlit("vec3_normalize");
    reveal_strlit("normalize");
    reveal_strlit("quat_mul");
    reveal_strlit("quat_rotate_vec");
    reveal_strlit("quat_x_vec");
    reveal_strlit("quat_invert");
    reveal_strlit("quat_scale");
    reveal_strlit("quat_angle");
    assert("bone_get"@.len() == 8);
    assert("get_bone"@.len() == 8);
    assert("bone_set"@.len() == 8);
    assert("set_bone"@.len() == 8);
    assert("morph_set"@.len() == 9);
    assert("set_morph"@.len() == 9);
    assert("float"@.len() == 5);
    assert("vec3"@.len() == 4);
    assert("quat_euler"@.len() == 10);
    assert("quateuler"@.len() == 9);
    assert("quat_to_euler"@.len() == 13);
    assert("quat_euler_out"@.len() == 14);
    assert("remap"@.len() == 5);
    assert("map_range"@.len() == 9);
    assert("maprange"@.len() == 8);
    assert("clamp"@.len() == 5);
    assert("add"@.len() == 3);
    assert("mul"@.len() == 3);
    assert("multiply"@.len() == 8);
    assert("combine_vec3"@.len() == 12);
    assert("combine_xyz"@.len() == 11);
    assert("combinexyz"@.len() == 10);
    assert("split_vec3"@.len() == 10);
    assert("split_xyz"@.len() == 9);
    assert("splitxyz"@.len() == 8);
    assert("vec3_add"@.len() == 8);
    assert("vec3_scale"@.len() == 10);
    assert("vec3_length"@.len() == 11);
    assert("length"@.len() == 6);
    assert("vec3_normalize"@.len() == 14);
    assert("normalize"@.len() == 9);
    assert("quat_mul"@.len() == 8);
    assert("quat_rotate_vec"@.len() == 15);
    assert("quat_x_vec"@.len() == 10);
    assert("quat_invert"@.len() == 11);
    assert("quat_scale"@.len() == 10);
    assert("quat_angle"@.len() == 10);
    assert("bone_get"@[0] == 'b');
    assert("bone_get"@[5] == 'g');
    assert("get_bone"@[0] == 'g');
    assert("get_bone"@[5] == 'o');
    assert("bone_set"@[0] == 'b');
    assert("bone_set"@[5] == 's');
    assert("set_bone"@[0] == 's');
    assert("set_bone"@[5] == 'o');
    assert("morph_set"@[4] == 'h');
    assert("set_morph"@[4] == 'm');
    assert("float"@[0] == 'f');
    assert("quat_euler"@[0] == 'q');
    assert("quat_euler"@[5] == 'e');
    assert("quateuler"@[4] == 'e');
    assert("quat_euler_out"@[0] == 'q');
    assert("remap"@[0] == 'r');
    assert("map_range"@[4] == 'r');
    assert("maprange"@[0] == 'm');
    assert("maprange"@[5] == 'n');
    assert("clamp"@[0] == 'c');
    assert("add"@[0] == 'a');
    assert("mul"@[0] == 'm');
    assert("multiply"@[0] == 'm');
    assert("multiply"@[5] == 'p');
    assert("combine_xyz"@[0] == 'c');
    assert("combinexyz"@[0] == 'c');
    assert("combinexyz"@[5] == 'n');
    assert("split_vec3"@[0] == 's');
    assert("split_vec3"@[5] == '_');
    assert("split_xyz"@[4] == 't');
    assert("splitxyz"@[0] == 's');
    assert("splitxyz"@[5] == 'x');
    assert("vec3_add"@[0] == 'v');
    assert("vec3_add"@[5] == 'a');
    assert("vec3_scale"@[0] == 'v');
    assert("vec3_scale"@[5] == 's');
    assert("vec3_length"@[0] == 'v');
    assert("vec3_normalize"@[0] == 'v');
    assert("normalize"@[4] == 'a');
    assert("quat_mul"@[0] == 'q');
    assert("quat_mul"@[5] == 'm');
    assert("quat_x_vec"@[0] == 'q');
    assert("quat_x_vec"@[5] == 'x');
    assert("quat_invert"@[0] == 'q');
    assert("quat_scale"@[0] == 'q');
    assert("quat_scale"@[5] == 's');
    assert("quat_angle"@[0] == 'q');
    assert("quat_angle"@[5] == 'a');
}

/// A kind is read back from its slug.
pub proof fn law_kind_from_slug(k: DriverNodeKind)
    ensures
        kind_named(plain_name(k.slug_of())) == Some(k),
{
    lemma_named(k);
    match k {
        DriverNodeKind::BoneGet => {
            reveal_strlit("bone_get");
            lemma_plain("bone_get"@, "bone_get"@);
        },
        DriverNodeKind::BoneSet => {
            reveal_strlit("bone_set");
            lemma_plain("bone_set"@, "bone_set"@);
        },
        DriverNodeKind::MorphSet => {
            reveal_strlit("morph_set");
            lemma_plain("morph_set"@, "morph_set"@);
        },
        DriverNodeKind::Float => {
            reveal_strlit("float");
            lemma_plain("float"@, "float"@);
        },
        DriverNodeKind::Vec3 => {
            reveal_strlit("vec3");
            lemma_plain("vec3"@, "vec3"@);
        },
        DriverNodeKind::QuatEuler => {
            reveal_strlit("quat_euler");
            lemma_plain("quat_euler"@, "quat_euler"@);
        },
        DriverNodeKind::QuatToEuler => {
            reveal_strlit("quat_to_euler");
            lemma_plain("quat_to_euler"@, "quat_to_euler"@);
        },
        DriverNodeKind::Remap => {
            reveal_strlit("remap");
            lemma_plain("remap"@, "remap"@);
        },
        DriverNodeKind::MapRange => {
            reveal_strlit("map_range");
            lemma_plain("map_range"@, "map_range"@);
        },
        DriverNodeKind::Clamp => {
            reveal_strlit("clamp");
            lemma_plain("clamp"@, "clamp"@);
        },
        DriverNodeKind::Add => {
            reveal_strlit("add");
            lemma_plain("add"@, "add"@);
        },
        DriverNodeKind::Mul => {
            reveal_strlit("mul");
            lemma_plain("mul"@, "mul"@);
        },
        DriverNodeKind::CombineVec3 => {
            reveal_strlit("combine_vec3");
            lemma_plain("combine_vec3"@, "combine_vec3"@);
        },
        DriverNodeKind::SplitVec3 => {
            reveal_strlit("split_vec3");
            lemma_plain("split_vec3"@, "split_vec3"@);
        },
        DriverNodeKind::Vec3Add => {
            reveal_strlit("vec3_add");
            lemma_plain("vec3_add"@, "vec3_add"@);
        },
        DriverNodeKind::Vec3Scale => {
            reveal_strlit("vec3_scale");
            lemma_plain("vec3_scale"@, "vec3_scale"@);
        },
        DriverNodeKind::Vec3Length => {
            reveal_strlit("vec3_length");
            lemma_plain("vec3_length"@, "vec3_length"@);
        },
        DriverNodeKind::Vec3Normalize => {
            reveal_strlit("vec3_normalize");
            lemma_plain("vec3_normalize"@, "vec3_normalize"@);
        },
        DriverNodeKind::QuatMul => {
            reveal_strlit("quat_mul");
            lemma_plain("quat_mul"@, "quat_mul"@);
        },
        DriverNodeKind::QuatRotateVec => {
            reveal_strlit("quat_rotate_vec");
            lemma_plain("quat_rotate_vec"@, "quat_rotate_vec"@);
        },
        DriverNodeKind::QuatInvert => {
            reveal_strlit("quat_invert");
            lemma_plain("quat_invert"@, "quat_invert"@);
        },
        DriverNodeKind::QuatScale => {
            reveal_strlit("quat_scale");
            lemma_plain("quat_scale"@, "quat_scale"@);
        },
        DriverNodeKind::QuatAngle => {
            reveal_strlit("quat_angle");
            lemma_plain("quat_angle"@, "quat_angle"@);
        },
    }
}

/// The one title with an arrow.
proof fn lemma_arrow_title()
    ensures
        plain_name("Quat → Euler"@) == "quat_to_euler"@,
{
    reveal_strlit("Quat → Euler");
    reveal_strlit("quat_to_euler");
    let s = "Quat → Euler"@;
    assert(trim_of(s) == s);
    let a = s.subrange(0, 5);
    let b = s.subrange(6, 12);
    lemma_spelled_by_char(a);
    lemma_spelled_by_char(b);
    lemma_spelled_join(a, seq![s[5]]);
    lemma_spelled_join(a + seq![s[5]], b);
    assert(a + seq![s[5]] + b =~= s);
    reveal_with_fuel(spelled, 2);
    assert(seq![s[5]].drop_last() =~= Seq::<char>::empty());
    assert(spelled(seq![s[5]]) =~= seq!['t', 'o']);
    assert(spelled(s) =~= "quat_to_euler"@);
    lemma_single_already("quat_to_euler"@);
}

/// Reading goes part by part.
proof fn lemma_spelled_join(a: Seq<char>, b: Seq<char>)
    ensures
        spelled(a + b) == spelled(a) + spelled(b),
    decreases b.len(),
{
    if b.len() == 0 {
        assert(a + b =~= a);
        assert(spelled(a) + spelled(b) =~= spelled(a));
    } else {
        assert((a + b).drop_last() =~= a + b.drop_last());
        lemma_spelled_join(a, b.drop_last());
        assert(spelled(a + b) =~= spelled(a) + spelled(b));
    }
}

/// A kind is read back from its title.
pub proof fn law_kind_from_title(k: DriverNodeKind)
    ensures
        kind_named(plain_name(k.title_of())) == Some(k),
{
    lemma_named(k);
    match k {
        DriverNodeKind::BoneGet => {
            assert(plain_name("Get Bone"@) == "get_bone"@) by {
                reveal_strlit("Get Bone");
                reveal_strlit("get_bone");
                lemma_plain("Get Bone"@, "get_bone"@);
            }
        },
        DriverNodeKind::BoneSet => {
            assert(plain_name("Set Bone"@) == "set_bone"@) by {
                reveal_strlit("Set Bone");
                reveal_strlit("set_bone");
                lemma_plain("Set Bone"@, "set_bone"@);
            }
        },
        DriverNodeKind::MorphSet => {
            assert(plain_name("Set Morph"@) == "set_morph"@) by {
                reveal_strlit("Set Morph");
                reveal_strlit("set_morph");
                lemma_plain("Set Morph"@, "set_morph"@);
            }
        },
        DriverNodeKind::Float => {
            assert(plain_name("Float"@) == "float"@) by {
                reveal_strlit("Float");
                reveal_strlit("float");
                lemma_plain("Float"@, "float"@);
            }
        },
        DriverNodeKind::Vec3 => {
            assert(plain_name("Vec3"@) == "vec3"@) by {
                reveal_strlit("Vec3");
                reveal_strlit("vec3");
                lemma_plain("Vec3"@, "vec3"@);
            }
        },
        DriverNodeKind::QuatEuler => {
            assert(plain_name("Quat Euler"@) == "quat_euler"@) by {
                reveal_strlit("Quat Euler");
                reveal_strlit("quat_euler");
                lemma_plain("Quat Euler"@, "quat_euler"@);
            }
        },
        DriverNodeKind::QuatToEuler => {
            lemma_arrow_title();
        },
        DriverNodeKind::Remap => {
            assert(plain_name("Remap"@) == "remap"@) by {
                reveal_strlit("Remap");
                reveal_strlit("remap");
                lemma_plain("Remap"@, "remap"@);
            }
        },
        DriverNodeKind::MapRange => {
            assert(plain_name("Map Range"@) == "map_range"@) by {
                reveal_strlit("Map Range");
                reveal_strlit("map_range");
                lemma_plain("Map Range"@, "map_range"@);
            }
        },
        DriverNodeKind::Clamp => {
            assert(plain_name("Clamp"@) == "clamp"@) by {
                reveal_strlit("Clamp");
                reveal_strlit("clamp");
                lemma_plain("Clamp"@, "clamp"@);
            }
        },
        DriverNodeKind::Add => {
            assert(plain_name("Add"@) == "add"@) by {
                reveal_strlit("Add");
                reveal_strlit("add");
                lemma_plain("Add"@, "add"@);
            }
        },
        DriverNodeKind::Mul => {
            assert(plain_name("Mul"@) == "mul"@) by {
                reveal_strlit("Mul");
                reveal_strlit("mul");
                lemma_plain("Mul"@, "mul"@);
            }
        },
        DriverNodeKind::CombineVec3 => {
            assert(plain_name("Combine XYZ"@) == "combine_xyz"@) by {
                reveal_strlit("Combine XYZ");
                reveal_strlit("combine_xyz");
                lemma_plain("Combine XYZ"@, "combine_xyz"@);
            }
        },
        DriverNodeKind::SplitVec3 => {
            assert(plain_name("Split XYZ"@) == "split_xyz"@) by {
                reveal_strlit("Split XYZ");
                reveal_strlit("split_xyz");
                lemma_plain("Split XYZ"@, "split_xyz"@);
            }
        },
        DriverNodeKind::Vec3Add => {
            assert(plain_name("Vec3 Add"@) == "vec3_add"@) by {
                reveal_strlit("Vec3 Add");
                reveal_strlit("vec3_add");
                lemma_plain("Vec3 Add"@, "vec3_add"@);
            }
        },
        DriverNodeKind::Vec3Scale => {
            assert(plain_name("Vec3 Scale"@) == "vec3_scale"@) by {
                reveal_strlit("Vec3 Scale");
                reveal_strlit("vec3_scale");
                lemma_plain("Vec3 Scale"@, "vec3_scale"@);
            }
        },
        DriverNodeKind::Vec3Length => {
            assert(plain_name("Length"@) == "length"@) by {
                reveal_strlit("Length");
                reveal_strlit("length");
                lemma_plain("Length"@, "length"@);
            }
        },
        DriverNodeKind::Vec3Normalize => {
            assert(plain_name("Normalize"@) == "normalize"@) by {
                reveal_strlit("Normalize");
                reveal_strlit("normalize");
                lemma_plain("Normalize"@, "normalize"@);
            }
        },
        DriverNodeKind::QuatMul => {
            assert(plain_name("Quat Mul"@) == "quat_mul"@) by {
                reveal_strlit("Quat Mul");
                reveal_strlit("quat_mul");
                lemma_plain("Quat Mul"@, "quat_mul"@);
            }
        },
        DriverNodeKind::QuatRotateVec => {
            assert(plain_name("Quat × Vec"@) == "quat_x_vec"@) by {
                reveal_strlit("Quat × Vec");
                reveal_strlit("quat_x_vec");
                lemma_plain("Quat × Vec"@, "quat_x_vec"@);
            }
        },
        DriverNodeKind::QuatInvert => {
            assert(plain_name("Quat Invert"@) == "quat_invert"@) by {
                reveal_strlit("Quat Invert");
                reveal_strlit("quat_invert");
                lemma_plain("Quat Invert"@, "quat_invert"@);
            }
        },
        DriverNodeKind::QuatScale => {
            assert(plain_name("Quat Scale"@) == "quat_scale"@) by {
                reveal_strlit("Quat Scale");
                reveal_strlit("quat_scale");
                lemma_plain("Quat Scale"@, "quat_scale"@);
            }
        },
        DriverNodeKind::QuatAngle => {
            assert(plain_name("Quat Angle"@) == "quat_angle"@) by {
                reveal_strlit("Quat Angle");
                reveal_strlit("quat_angle");
                lemma_plain("Quat Angle"@, "quat_angle"@);
            }
        },
    }
}

} // verus!
