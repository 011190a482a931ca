//! What scripts find, set and are told, and what a driver script says.

use vstd::prelude::*;
use crate::bones::{BoneId, BoneView};
use crate::driver::{dnode_find, DriverNodeView, DriverView};
use crate::geom::Scalar;
use crate::kinds::{kind_named, space_named, DriverNodeKind, DriverSpace};
use crate::rig::{AppMode, RigView, SoftView};
use crate::rig_app::{is_shown, view_label, view_switched, ViewItem};
use crate::script::{glob, lua_quoted, opts_text, param_names, params_text};
use crate::script_driver::{
    bone_in, driver_head, driver_script, link_line, name_in, name_nodes, node_bone_name, node_lines, with_links,
    with_nodes,
};
use crate::script_rig::{
    args_read, driver_find, first_named, has_soft_id, mode_named, node_set, opts_outcome, param_keys, params_set, soft_tuned,
    unused_driver_id, with_node, NodeParams, SoftParams,
};
use crate::session::AppView;
use crate::text::{lower_of, trim_of};

verus! {

/// A question mark stands for exactly one byte, whichever it is.
pub proof fn law_glob_question(p: Seq<u8>, s: Seq<u8>)
    ensures
        s.len() == 0 ==> !glob(seq![63u8] + p, s),
        s.len() > 0 ==> (glob(seq![63u8] + p, s) <==> glob(p, s.skip(1))),
{
    assert((seq![63u8] + p).skip(1) =~= p);
}

/// A star stands for any bytes: what follows it has to match some rest.
pub proof fn law_glob_rest(p: Seq<u8>, s: Seq<u8>)
    ensures
        glob(seq![42u8] + p, s) <==> exists|k: int| 0 <= k <= s.len() && glob(p, #[trigger] s.skip(k)),
    decreases s.len(),
{
    let q = seq![42u8] + p;
    assert(q.skip(1) =~= p);
    assert(s.skip(0) =~= s);
    if s.len() > 0 {
        let t = s.skip(1);
        law_glob_rest(p, t);
        if glob(q, t) {
            let k = choose|k: int| 0 <= k <= t.len() && glob(p, #[trigger] t.skip(k));
            assert(s.skip(k + 1) =~= t.skip(k));
            assert(glob(p, s.skip(k + 1)));
        }
        if exists|k: int| 0 <= k <= s.len() && glob(p, #[trigger] s.skip(k)) {
            let k = choose|k: int| 0 <= k <= s.len() && glob(p, #[trigger] s.skip(k));
            if k > 0 {
                assert(t.skip(k - 1) =~= s.skip(k));
                assert(glob(p, t.skip(k - 1)));
            }
        }
    } else {
        if glob(p, s) {
            assert(glob(p, s.skip(0)));
        }
        if exists|k: int| 0 <= k <= s.len() && glob(p, #[trigger] s.skip(k)) {
            let k = choose|k: int| 0 <= k <= s.len() && glob(p, #[trigger] s.skip(k));
            assert(s.skip(k) =~= s);
        }
    }
}

/// Modes go by their names.
pub proof fn law_mode_names()
    ensures
        mode_named("edit"@) == Some(AppMode::Edit),
        mode_named("pose"@) == Some(AppMode::Pose),
        mode_named("shape"@) == Some(AppMode::Shape),
{
    reveal_strlit("edit");
    reveal_strlit("pose");
    reveal_strlit("shape");
    assert("edit"@[0] == 'e' && "pose"@[0] == 'p' && "shape"@[0] == 's');
}

/// There are no modes by other names.
pub proof fn law_mode_unknown(k: Seq<char>)
    ensures
        k != "edit"@ && k != "pose"@ && k != "shape"@ ==> mode_named(k) is None,
{
}

/// Spaces go by their names, the offset from bind by three.
pub proof fn law_space_aliases()
    ensures
        space_named("local"@) == Some(DriverSpace::Local),
        space_named("world"@) == Some(DriverSpace::World),
        space_named("offset"@) == Some(DriverSpace::BindOffset),
        space_named("bind_offset"@) == Some(DriverSpace::BindOffset),
        space_named("bindoffset"@) == Some(DriverSpace::BindOffset),
{
    reveal_strlit("local");
    reveal_strlit("world");
    reveal_strlit("offset");
    reveal_strlit("bind_offset");
    reveal_strlit("bindoffset");
    assert("local"@[0] == 'l' && "world"@[0] == 'w' && "offset"@[0] == 'o' && "bind_offset"@[0] == 'b'
        && "bindoffset"@[0] == 'b');
}

/// A bone by name is the first one of that name.
pub proof fn law_first_named(bs: Seq<BoneView>, name: Seq<char>, i: int)
    ensures
        0 <= i < bs.len() && bs[i].name == name && (forall|j: int| 0 <= j < i ==> (#[trigger] bs[j]).name != name)
            ==> first_named(bs, name) == Some(bs[i].id),
        (forall|j: int| 0 <= j < bs.len() ==> (#[trigger] bs[j]).name != name) ==> first_named(bs, name) is None,
    decreases bs.len(),
{
    if bs.len() > 0 {
        let t = bs.skip(1);
        law_first_named(t, name, i - 1);
        assert(forall|j: int| 0 <= j < t.len() ==> #[trigger] t[j] == bs[j + 1]);
        if i > 0 && forall|j: int| 0 <= j < i ==> (#[trigger] bs[j]).name != name {
            assert(bs[0].name != name);
        }
        if forall|j: int| 0 <= j < bs.len() ==> (#[trigger] bs[j]).name != name {
            assert(bs[0].name != name);
        }
    }
}

/// A driver by number is the first one of that number.
pub proof fn law_driver_find(ds: Seq<DriverView>, id: u32, i: int)
    ensures
        0 <= i < ds.len() && ds[i].id == id && (forall|j: int| 0 <= j < i ==> (#[trigger] ds[j]).id != id)
            ==> driver_find(ds, id) == Some(i),
        (forall|j: int| 0 <= j < ds.len() ==> (#[trigger] ds[j]).id != id) ==> driver_find(ds, id) is None,
        driver_find(ds, id) matches Some(k) ==> 0 <= k < ds.len() && ds[k].id == id,
    decreases ds.len(),
{
    if ds.len() > 0 {
        let t = ds.drop_last();
        law_driver_find(t, id, i);
        assert(forall|j: int| 0 <= j < t.len() ==> #[trigger] t[j] == ds[j]);
        if i == ds.len() - 1 && forall|j: int| 0 <= j < i ==> (#[trigger] ds[j]).id != id {
            assert forall|j: int| 0 <= j < t.len() implies (#[trigger] t[j]).id != id by {
                assert(ds[j].id != id);
            }
        }
        if forall|j: int| 0 <= j < ds.len() ==> (#[trigger] ds[j]).id != id {
            assert forall|j: int| 0 <= j < t.len() implies (#[trigger] t[j]).id != id by {
                assert(ds[j].id != id);
            }
        }
    }
}

/// The number of a new driver is one above all that are there, and one where
/// there is none.
pub proof fn law_next_driver(ds: Seq<DriverView>, id: u32, i: int)
    requires
        unused_driver_id(ds, id),
    ensures
        0 <= i < ds.len() ==> ds[i].id < id,
        ds.len() == 0 ==> id == 1,
{
}

/// No option is given but those in the list.
pub open spec fn nothing_given(p: NodeParams) -> bool {
    &&& p.value is None && p.t is None && p.from is None && p.to is None
    &&& p.in_from is None && p.in_to is None && p.out_from is None && p.out_to is None
    &&& p.min is None && p.max is None && p.x is None && p.y is None && p.z is None
    &&& p.floats@[0] is None && p.floats@[1] is None && p.floats@[2] is None && p.floats@[3] is None
}

/// Options that are not given change nothing; a number by place goes to its
/// place, and wins over a name.
pub proof fn law_params_set(f: Seq<Scalar>, p: NodeParams, i: int)
    requires
        f.len() == 4,
        0 <= i < 4,
    ensures
        params_set(f, p).len() == 4,
        nothing_given(p) ==> params_set(f, p)[i] == f[i],
        p.floats@[i] matches Some(x) ==> params_set(f, p)[i] == x,
{
}

/// Each name has its place: the first is that of a value, a weight, a lower
/// bound or what comes in; the second of an upper bound or an end; the third and
/// fourth of what goes out; x, y and z stand in their order.
pub proof fn law_param_places(f: Seq<Scalar>, p: NodeParams, x: Scalar)
    requires
        f.len() == 4,
        nothing_given(p),
    ensures
        params_set(f, NodeParams { value: Some(x), ..p })[0] == x,
        params_set(f, NodeParams { t: Some(x), ..p })[0] == x,
        params_set(f, NodeParams { from: Some(x), ..p })[0] == x,
        params_set(f, NodeParams { in_from: Some(x), ..p })[0] == x,
        params_set(f, NodeParams { min: Some(x), ..p })[0] == x,
        params_set(f, NodeParams { x: Some(x), ..p })[0] == x,
        params_set(f, NodeParams { to: Some(x), ..p })[1] == x,
        params_set(f, NodeParams { in_to: Some(x), ..p })[1] == x,
        params_set(f, NodeParams { max: Some(x), ..p })[1] == x,
        params_set(f, NodeParams { y: Some(x), ..p })[1] == x,
        params_set(f, NodeParams { out_from: Some(x), ..p })[2] == x,
        params_set(f, NodeParams { z: Some(x), ..p })[2] == x,
        params_set(f, NodeParams { out_to: Some(x), ..p })[3] == x,
        params_set(f, NodeParams { value: Some(x), ..p })[1] == f[1],
        params_set(f, NodeParams { to: Some(x), ..p })[0] == f[0],
        params_set(f, NodeParams { out_from: Some(x), ..p })[3] == f[3],
        params_set(f, NodeParams { out_to: Some(x), ..p })[2] == f[2],
{
}

/// Tuning a soft chain sets what is given and leaves the rest of it, and leaves
/// every other chain.
pub proof fn law_soft_tuned(c: SoftView, id: u32, p: SoftParams)
    ensures
        c.id != id ==> soft_tuned(c, id, p) == c,
        c.id == id ==> {
            let d = soft_tuned(c, id, p);
            &&& p.gravity matches Some(x) ==> d.gravity == x
            &&& p.stiffness matches Some(x) ==> d.stiffness == x
            &&& p.damping matches Some(x) ==> d.damping == x
            &&& p.inertia matches Some(x) ==> d.inertia == x
            &&& p.max_angle matches Some(x) ==> d.max_angle == x
            &&& p.gravity is None ==> d.gravity == c.gravity
            &&& p.stiffness is None ==> d.stiffness == c.stiffness
            &&& p.damping is None ==> d.damping == c.damping
            &&& p.inertia is None ==> d.inertia == c.inertia
            &&& p.max_angle is None ==> d.max_angle == c.max_angle
            &&& d.bones == c.bones && d.enabled == c.enabled && d.anchor == c.anchor && d.id == c.id
        },
{
}

/// Setting a node sets the bone, the space and the shape key that are given, and
/// keeps those that are not; what it is and where it stands stays.
pub proof fn law_node_set(n: DriverNodeView, bone: Option<BoneId>, space: Option<DriverSpace>, p: NodeParams)
    ensures
        ({
            let m = node_set(n, bone, space, p);
            &&& bone is Some ==> m.bone == bone
            &&& bone is None ==> m.bone == n.bone
            &&& space matches Some(s) ==> m.space == s
            &&& space is None ==> m.space == n.space
            &&& p.shape matches Some(s) ==> m.shape == s
            &&& p.shape is None ==> m.shape == n.shape
            &&& m.id == n.id && m.kind == n.kind && m.pos == n.pos && m.mesh == n.mesh && m.title == n.title
        }),
{
}

/// Options are refused where they name a bone, a space, a driver or a node that
/// is not there; else the node is set as they say.
pub proof fn law_opts_outcome(
    r: RigView,
    driver: u32,
    node: Seq<char>,
    bone: Option<Seq<char>>,
    space: Option<Seq<char>>,
    p: NodeParams,
)
    ensures
        bone is Some && first_named(r.bones, bone->0) is None ==> opts_outcome(r, driver, node, bone, space, p) is Err,
        space is Some && space_named(lower_of(trim_of(space->0))) is None ==> opts_outcome(
            r,
            driver,
            node,
            bone,
            space,
            p,
        ) is Err,
        driver_find(r.drivers, driver) is None ==> opts_outcome(r, driver, node, bone, space, p) is Err,
        driver_find(r.drivers, driver) matches Some(d) ==> (dnode_find(r.drivers[d].nodes, node) is None ==> opts_outcome(
            r,
            driver,
            node,
            bone,
            space,
            p,
        ) is Err),
        opts_outcome(r, driver, node, bone, space, p) matches Ok((d, i, m)) ==> {
            &&& driver_find(r.drivers, driver) == Some(d)
            &&& dnode_find(r.drivers[d].nodes, node) == Some(i)
            &&& bone is Some ==> m.bone == first_named(r.bones, bone->0)
            &&& bone is None ==> m.bone == r.drivers[d].nodes[i].bone
            &&& space is Some ==> Some(m.space) == space_named(lower_of(trim_of(space->0)))
            &&& m.kind == r.drivers[d].nodes[i].kind && m.id == r.drivers[d].nodes[i].id
        },
{
}

/// Setting one node of one driver leaves all others.
pub proof fn law_with_node(r: RigView, d: int, i: int, n: DriverNodeView, e: int, j: int)
    requires
        0 <= d < r.drivers.len(),
        0 <= i < r.drivers[d].nodes.len(),
    ensures
        with_node(r, d, i, n).drivers[d].nodes[i] == n,
        0 <= e < r.drivers.len() && e != d ==> with_node(r, d, i, n).drivers[e] == r.drivers[e],
        0 <= j < r.drivers[d].nodes.len() && j != i ==> with_node(r, d, i, n).drivers[d].nodes[j]
            == r.drivers[d].nodes[j],
        with_node(r, d, i, n).drivers.len() == r.drivers.len() && with_node(r, d, i, n).bones == r.bones,
{
}

/// Without arguments no script runs; `--script` or `-s` names one and the last
/// one counts; help asks for nothing else.
pub proof fn law_args(args: Seq<Seq<char>>, i: nat, before: Option<Seq<char>>)
    ensures
        i >= args.len() ==> args_read(args, i, before) == Ok::<Option<Option<Seq<char>>>, Seq<char>>(Some(before)),
        i < args.len() && (args[i as int] == "-h"@ || args[i as int] == "--help"@) ==> args_read(args, i, before)
            == Ok::<Option<Option<Seq<char>>>, Seq<char>>(None),
        i + 1 < args.len() && (args[i as int] == "-s"@ || args[i as int] == "--script"@) && args[i as int] != "-h"@
            && args[i as int] != "--help"@ ==> args_read(args, i, before) == args_read(
            args,
            i + 2,
            Some(args[i as int + 1]),
        ),
        i + 1 == args.len() && (args[i as int] == "-s"@ || args[i as int] == "--script"@) && args[i as int] != "-h"@
            && args[i as int] != "--help"@ ==> args_read(args, i, before) is Err,
{
}

/// The name that a script has for a node is the one first given to its id.
pub proof fn law_name_in(pairs: Seq<(Seq<char>, Seq<char>)>, id: Seq<char>, other: Seq<char>, i: int)
    ensures
        0 <= i < pairs.len() && pairs[i].0 == id && (forall|j: int| 0 <= j < i ==> (#[trigger] pairs[j]).0 != id)
            ==> name_in(pairs, id, other) == pairs[i].1,
        (forall|j: int| 0 <= j < pairs.len() ==> (#[trigger] pairs[j]).0 != id) ==> name_in(pairs, id, other) == other,
    decreases pairs.len(),
{
    if pairs.len() > 0 {
        let t = pairs.skip(1);
        law_name_in(t, id, other, i - 1);
        assert(forall|j: int| 0 <= j < t.len() ==> #[trigger] t[j] == pairs[j + 1]);
        if i > 0 && forall|j: int| 0 <= j < i ==> (#[trigger] pairs[j]).0 != id {
            assert(pairs[0].0 != id);
        }
        if forall|j: int| 0 <= j < pairs.len() ==> (#[trigger] pairs[j]).0 != id {
            assert(pairs[0].0 != id);
        }
    }
}

/// The name of a bone in a script is the one listed for it.
pub proof fn law_bone_in(bones: Seq<(BoneId, Seq<char>)>, id: BoneId, i: int)
    ensures
        0 <= i < bones.len() && bones[i].0 == id && (forall|j: int| 0 <= j < i ==> (#[trigger] bones[j]).0 != id)
            ==> bone_in(bones, id) == Some(bones[i].1),
        (forall|j: int| 0 <= j < bones.len() ==> (#[trigger] bones[j]).0 != id) ==> bone_in(bones, id) is None,
    decreases bones.len(),
{
    if bones.len() > 0 {
        let t = bones.skip(1);
        law_bone_in(t, id, i - 1);
        assert(forall|j: int| 0 <= j < t.len() ==> #[trigger] t[j] == bones[j + 1]);
        if i > 0 && forall|j: int| 0 <= j < i ==> (#[trigger] bones[j]).0 != id {
            assert(bones[0].0 != id);
        }
        if forall|j: int| 0 <= j < bones.len() ==> (#[trigger] bones[j]).0 != id {
            assert(bones[0].0 != id);
        }
    }
}

/// `part` stands in `whole`.
pub open spec fn stands_in(part: Seq<char>, whole: Seq<char>) -> bool {
    exists|a: Seq<char>, b: Seq<char>| whole == #[trigger] (a + part + b)
}

proof fn lemma_stands_longer(part: Seq<char>, whole: Seq<char>, more: Seq<char>)
    requires
        stands_in(part, whole),
    ensures
        stands_in(part, whole + more),
{
    let (a, b) = choose|a: Seq<char>, b: Seq<char>| whole == #[trigger] (a + part + b);
    assert(whole + more =~= a + part + (b + more));
}

proof fn lemma_node_stands(
    m: spec_fn(Scalar) -> Seq<char>,
    bones: Seq<(BoneId, Seq<char>)>,
    d: DriverView,
    k: nat,
    i: int,
)
    requires
        0 <= i < k <= d.nodes.len(),
    ensures
        stands_in(node_lines(m, bones, name_nodes(d.nodes, d.nodes.len()).pairs, d.nodes[i]), with_nodes(m, bones, d, k)),
    decreases k,
{
    let pairs = name_nodes(d.nodes, d.nodes.len()).pairs;
    let was = with_nodes(m, bones, d, (k - 1) as nat);
    let line = node_lines(m, bones, pairs, d.nodes[k - 1]);
    if i == k - 1 {
        assert(was + line =~= was + line + Seq::<char>::empty());
        assert(stands_in(line, was + line));
    } else {
        lemma_node_stands(m, bones, d, (k - 1) as nat, i);
        lemma_stands_longer(node_lines(m, bones, pairs, d.nodes[i]), was, line);
    }
}

proof fn lemma_links_longer(
    m: spec_fn(Scalar) -> Seq<char>,
    bones: Seq<(BoneId, Seq<char>)>,
    d: DriverView,
    k: nat,
    part: Seq<char>,
)
    requires
        stands_in(part, with_nodes(m, bones, d, d.nodes.len())),
    ensures
        stands_in(part, with_links(m, bones, d, k)),
    decreases k,
{
    if k > 0 {
        lemma_links_longer(m, bones, d, (k - 1) as nat, part);
        lemma_stands_longer(
            part,
            with_links(m, bones, d, (k - 1) as nat),
            link_line(name_nodes(d.nodes, d.nodes.len()).pairs, d.space.links[k - 1]),
        );
    }
}

proof fn lemma_link_stands(
    m: spec_fn(Scalar) -> Seq<char>,
    bones: Seq<(BoneId, Seq<char>)>,
    d: DriverView,
    k: nat,
    i: int,
)
    requires
        0 <= i < k <= d.space.links.len(),
    ensures
        stands_in(link_line(name_nodes(d.nodes, d.nodes.len()).pairs, d.space.links[i]), with_links(m, bones, d, k)),
    decreases k,
{
    let pairs = name_nodes(d.nodes, d.nodes.len()).pairs;
    let was = with_links(m, bones, d, (k - 1) as nat);
    let line = link_line(pairs, d.space.links[k - 1]);
    if i == k - 1 {
        assert(was + line =~= was + line + Seq::<char>::empty());
        assert(stands_in(line, was + line));
    } else {
        lemma_link_stands(m, bones, d, (k - 1) as nat, i);
        lemma_stands_longer(link_line(pairs, d.space.links[i]), was, line);
    }
}

/// A driver script makes every node, under its name, of its kind and with its
/// options, and draws every link from the output it comes from to the input it
/// goes to.
pub proof fn law_script_complete(
    m: spec_fn(Scalar) -> Seq<char>,
    bones: Seq<(BoneId, Seq<char>)>,
    d: DriverView,
    i: int,
)
    ensures
        ({
            let pairs = name_nodes(d.nodes, d.nodes.len()).pairs;
            let text = driver_script(m, bones, d);
            &&& 0 <= i < d.nodes.len() ==> stands_in(
                "local "@ + name_in(pairs, d.nodes[i].id, "n"@) + " = d:add("@ + lua_quoted(d.nodes[i].kind.slug_of())
                    + ", "@ + opts_text(m, d.nodes[i], node_bone_name(bones, d.nodes[i])) + ")\n"@,
                text,
            )
            &&& 0 <= i < d.space.links.len() ==> {
                let l = d.space.links[i];
                stands_in(
                    "d:link("@ + name_in(pairs, l.from_node, l.from_node) + ", "@ + lua_quoted(l.from_port) + ", "@
                        + name_in(pairs, l.to_node, l.to_node) + ", "@ + lua_quoted(l.to_port) + ")\n"@,
                    text,
                )
            }
        }),
{
    let pairs = name_nodes(d.nodes, d.nodes.len()).pairs;
    let text = driver_script(m, bones, d);
    if 0 <= i < d.nodes.len() {
        let n = d.nodes[i];
        lemma_node_stands(m, bones, d, d.nodes.len(), i);
        let full = node_lines(m, bones, pairs, n);
        lemma_links_longer(m, bones, d, d.space.links.len(), full);
        let line = "local "@ + name_in(pairs, n.id, "n"@) + " = d:add("@ + lua_quoted(n.kind.slug_of()) + ", "@
            + opts_text(m, n, node_bone_name(bones, n)) + ")\n"@;
        let note = if n.kind == DriverNodeKind::MorphSet {
            "-- morph_set: bind the mesh in the node editor if needed\n"@
        } else {
            Seq::empty()
        };
        assert(full =~= note + line);
        let (a, b) = choose|a: Seq<char>, b: Seq<char>| text == #[trigger] (a + full + b);
        assert(text =~= (a + note) + line + b);
    }
    if 0 <= i < d.space.links.len() {
        lemma_link_stands(m, bones, d, d.space.links.len(), i);
    }
}

/// A script begins with making the driver, and switches it off where it is off.
pub proof fn law_script_head(d: DriverView)
    ensures
        d.enabled ==> driver_head(d) == "local d = rig.create_driver("@ + lua_quoted(d.name) + ")\n"@,
        !d.enabled ==> driver_head(d) == "local d = rig.create_driver("@ + lua_quoted(d.name) + ")\n"@
            + "d:enable(false)\n"@,
{
}

/// The options of a node begin with where it stands; the bone and its space
/// follow where there is one, and a node for a shape key names it.
pub proof fn law_opts_text(m: spec_fn(Scalar) -> Seq<char>, n: DriverNodeView, name: Seq<char>)
    ensures
        stands_in("{ pos = {"@ + m(n.pos.x) + ", "@ + m(n.pos.y) + "}"@, opts_text(m, n, None)),
        stands_in(
            ", bone = "@ + lua_quoted(name) + ", space = "@ + lua_quoted(n.space.slug_of()),
            opts_text(m, n, Some(name)),
        ),
        n.kind == DriverNodeKind::MorphSet ==> stands_in(
            ", shape = "@ + crate::text::decimal_of(n.shape as nat),
            opts_text(m, n, None),
        ),
{
    let k = crate::script::param_names(n.kind).len();
    let ps = params_text(m, n, k);
    let e = Seq::<char>::empty();
    let pos = "{ pos = {"@ + m(n.pos.x) + ", "@ + m(n.pos.y) + "}"@;
    let shape = if n.kind == DriverNodeKind::MorphSet {
        ", shape = "@ + crate::text::decimal_of(n.shape as nat)
    } else {
        e
    };
    let bone = ", bone = "@ + lua_quoted(name) + ", space = "@ + lua_quoted(n.space.slug_of());
    assert(opts_text(m, n, None) =~= e + pos + (ps + shape + " }"@));
    assert(opts_text(m, n, Some(name)) =~= pos + bone + (ps + shape + " }"@));
    if n.kind == DriverNodeKind::MorphSet {
        assert(opts_text(m, n, None) =~= (pos + ps) + shape + " }"@);
    }
}

/// Other names that kinds of nodes go by.
pub proof fn law_kind_aliases()
    ensures
        kind_named("get_bone"@) == Some(DriverNodeKind::BoneGet),
        kind_named("multiply"@) == Some(DriverNodeKind::Mul),
{
    reveal_strlit("get_bone");
    reveal_strlit("multiply");
    reveal_strlit("bone_get");
    reveal_strlit("bone_set");
    reveal_strlit("set_bone");
    reveal_strlit("morph_set");
    reveal_strlit("set_morph");
    reveal_strlit("float");
    reveal_strlit("vec3");
    reveal_strlit("quat_euler");
    reveal_strlit("quateuler");
    reveal_strlit("quat_to_euler");
    reveal_strlit("quat_euler_out");
    reveal_strlit("remap");
    reveal_strlit("map_range");
    reveal_strlit("maprange");
    reveal_strlit("clamp");
    reveal_strlit("add");
    reveal_strlit("mul");
    let s = "multiply"@;
    assert(s[0] == 'm' && s[1] == 'u' && s.len() == 8);
    assert("morph_set"@[1] == 'o' && "map_range"@[1] == 'a' && "maprange"@[1] == 'a');
    assert("bone_get"@[0] == 'b' && "bone_set"@[0] == 'b' && "get_bone"@[0] == 'g' && "set_bone"@[0] == 's'
        && "set_morph"@[0] == 's');
    assert("float"@[0] == 'f' && "vec3"@[0] == 'v' && "remap"@[0] == 'r' && "clamp"@[0] == 'c' && "add"@[0] == 'a');
    assert("quat_euler"@[0] == 'q' && "quateuler"@[0] == 'q' && "quat_to_euler"@[0] == 'q' && "quat_euler_out"@[0]
        == 'q');
}

/// Switching what is shown switches that and nothing else; hiding meshes hides
/// the nodes that carry one, and showing them shows those.
pub proof fn law_view_switched(a: AppView, item: ViewItem, other: ViewItem, i: int)
    ensures
        is_shown(view_switched(a, item).rig, item) == !is_shown(a.rig, item),
        other != item ==> is_shown(view_switched(a, item).rig, other) == is_shown(a.rig, other),
        view_switched(a, item).rig.bones == a.rig.bones && view_switched(a, item).rig.selection == a.rig.selection,
        item != ViewItem::Mesh ==> view_switched(a, item).scene == a.scene,
        item == ViewItem::Mesh && 0 <= i < a.scene.nodes.len() ==> {
            let n = view_switched(a, item).scene.nodes[i];
            &&& a.scene.nodes[i].mesh is Some ==> n.visible == !a.rig.show_mesh
            &&& a.scene.nodes[i].mesh is None ==> n == a.scene.nodes[i]
            &&& n.local == a.scene.nodes[i].local && n.handle == a.scene.nodes[i].handle
        },
        item == ViewItem::Weights ==> view_switched(a, item).rig.overlay_dirty,
        item == ViewItem::Skeleton ==> is_shown(a.rig, item) == a.rig.show_skeleton,
        item == ViewItem::Mesh ==> is_shown(a.rig, item) == a.rig.show_mesh,
        item == ViewItem::Weights ==> is_shown(a.rig, item) == a.rig.show_weights,
        item == ViewItem::Colliders ==> is_shown(a.rig, item) == a.rig.show_colliders,
{
}

/// A menu offers to hide what is shown and to show what is hidden.
pub proof fn law_view_label(item: ViewItem)
    ensures
        view_label(item, true)[0] == 'H',
        view_label(item, false)[0] == 'S',
        view_label(item, true).skip(5) == view_label(item, false).skip(5),
{
    reveal_strlit("Hide Skeleton");
    reveal_strlit("Show Skeleton");
    reveal_strlit("Hide Mesh");
    reveal_strlit("Show Mesh");
    reveal_strlit("Hide Weights");
    reveal_strlit("Show Weights");
    reveal_strlit("Hide Colliders");
    reveal_strlit("Show Colliders");
}

/// A script that is named without an option ends in `.lua`; other arguments are
/// refused by name.
pub proof fn law_args_other(args: Seq<Seq<char>>, i: nat, before: Option<Seq<char>>)
    requires
        i < args.len(),
        args[i as int] != "-h"@ && args[i as int] != "--help"@ && args[i as int] != "-s"@ && args[i as int]
            != "--script"@,
    ensures
        ({
            let a = args[i as int];
            let dash = a.len() > 0 && a[0] == '-';
            let lua = a.len() >= 4 && a.skip(a.len() - 4) == ".lua"@;
            &&& dash ==> args_read(args, i, before) == Err::<Option<Option<Seq<char>>>, Seq<char>>(
                "unknown argument '"@ + a + "' (try --help)"@,
            )
            &&& !dash && lua ==> args_read(args, i, before) == args_read(args, i + 1, Some(a))
            &&& !dash && !lua ==> args_read(args, i, before) == Err::<Option<Option<Seq<char>>>, Seq<char>>(
                "unexpected argument '"@ + a + "' (try --help)"@,
            )
        }),
{
    reveal_strlit("-");
    reveal_strlit(".lua");
    let a = args[i as int];
    if a.len() > 0 {
        assert(a.take(1)[0] == a[0]);
        if a[0] == '-' {
            assert(a.take(1) =~= "-"@);
        }
    }
}

/// A soft chain is known by its number.
pub proof fn law_has_soft_id(cs: Seq<SoftView>, id: u32, i: int)
    ensures
        0 <= i < cs.len() ==> has_soft_id(cs, cs[i].id),
        (forall|j: int| 0 <= j < cs.len() ==> (#[trigger] cs[j]).id != id) ==> !has_soft_id(cs, id),
{
}

/// Every parameter of a node can be given under the name it is written by.
pub proof fn law_params_named(kind: DriverNodeKind, k: int)
    requires
        0 <= k < param_names(kind).len(),
    ensures
        param_keys().contains(param_names(kind)[k].0),
        0 <= param_names(kind)[k].1 < 4,
{
    let p = param_names(kind)[k].0;
    let ks = param_keys();
    assert(ks[0] == "value"@ && ks[1] == "t"@ && ks[2] == "from"@ && ks[3] == "to"@ && ks[4] == "in_from"@ && ks[5]
        == "in_to"@ && ks[6] == "out_from"@ && ks[7] == "out_to"@ && ks[8] == "min"@ && ks[9] == "max"@ && ks[10]
        == "x"@ && ks[11] == "y"@ && ks[12] == "z"@);
    assert(exists|j: int| 0 <= j < ks.len() && ks[j] == p);
}

} // verus!
