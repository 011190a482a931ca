//! What setup scripts do to a rig: finding bones by name, making and tuning
//! drivers and soft chains, and the command line that names a script.

use vstd::prelude::*;
use crate::bones::{BoneId, BoneView};
use crate::driver::{
    dnode_find, fresh_driver, Driver, DriverNode, DriverNodeView, DriverView, NodeSpace,
};
use crate::geom::Scalar;
use crate::kinds::{space_named, DriverSpace};
use crate::lists::{lemma_filter_ends, lemma_filter_step};
use crate::rig::{drivers_view, AppMode, RigDocument, RigView, SoftView};
use crate::scene::texts_view;
use crate::script::{glob_match, glob_text, param_names};
use crate::text::{
    chars_of, decimal, decimal_of, join, lower_of, lowered, same_text, string_of, trim, trim_of,
};

verus! {

/// The mode that a word names.
pub open spec fn mode_named(k: Seq<char>) -> Option<AppMode> {
    if k == "edit"@ {
        Some(AppMode::Edit)
    } else if k == "pose"@ {
        Some(AppMode::Pose)
    } else if k == "shape"@ {
        Some(AppMode::Shape)
    } else {
        None
    }
}

impl AppMode {
    /// Reads a mode from its name.
    pub fn from_name(s: &str) -> (r: Option<Self>)
        ensures
            r == mode_named(lower_of(trim_of(s@))),
    {
        let k = string_of(&lowered(&trim(&chars_of(s))));
        if same_text(&k, "edit") {
            Some(AppMode::Edit)
        } else if same_text(&k, "pose") {
            Some(AppMode::Pose)
        } else if same_text(&k, "shape") {
            Some(AppMode::Shape)
        } else {
            None
        }
    }
}

/// The first bone called `name`.
pub open spec fn first_named(bs: Seq<BoneView>, name: Seq<char>) -> Option<BoneId>
    decreases bs.len(),
{
    if bs.len() == 0 {
        None
    } else if bs[0].name == name {
        Some(bs[0].id)
    } else {
        first_named(bs.skip(1), name)
    }
}

pub open spec fn unknown_bone(name: Seq<char>) -> Seq<char> {
    "unknown bone '"@ + name + "' (rig.list_bones())"@
}

pub open spec fn unknown_space(name: Seq<char>) -> Seq<char> {
    "unknown space '"@ + name + "' (local|world|offset)"@
}

pub open spec fn unknown_driver(id: u32) -> Seq<char> {
    "unknown driver "@ + decimal_of(id as nat)
}

/// The place of the first driver `id`.
pub open spec fn driver_find(ds: Seq<DriverView>, id: u32) -> Option<int>
    decreases ds.len(),
{
    if ds.len() == 0 {
        None
    } else {
        match driver_find(ds.drop_last(), id) {
            Some(i) => Some(i),
            None => if ds.last().id == id {
                Some(ds.len() - 1)
            } else {
                None
            },
        }
    }
}

pub proof fn lemma_driver_find(ds: Seq<DriverView>, id: u32)
    ensures
        match driver_find(ds, id) {
            Some(i) => 0 <= i < ds.len() && ds[i].id == id && forall|j: int|
                0 <= j < i ==> (#[trigger] ds[j]).id != id,
            None => forall|j: int| 0 <= j < ds.len() ==> (#[trigger] ds[j]).id != id,
        },
    decreases ds.len(),
{
    if ds.len() > 0 {
        let t = ds.drop_last();
        lemma_driver_find(t, id);
        assert forall|j: int| 0 <= j < t.len() implies #[trigger] ds[j] == t[j] by {}
    }
}

/// Numbers that a script sets on a node; what is `None` stays.
pub struct NodeParams {
    pub value: Option<Scalar>,
    pub t: Option<Scalar>,
    pub from: Option<Scalar>,
    pub to: Option<Scalar>,
    pub in_from: Option<Scalar>,
    pub in_to: Option<Scalar>,
    pub out_from: Option<Scalar>,
    pub out_to: Option<Scalar>,
    pub min: Option<Scalar>,
    pub max: Option<Scalar>,
    pub x: Option<Scalar>,
    pub y: Option<Scalar>,
    pub z: Option<Scalar>,
    pub shape: Option<u32>,
    pub floats: [Option<Scalar>; 4],
}

/// What `get` finds under each name is what `m` says.
pub open spec fn finds<G: Fn(&'static str) -> Option<Scalar>>(
    get: G,
    m: spec_fn(Seq<char>) -> Option<Scalar>,
) -> bool {
    forall|k: &'static str, out: Option<Scalar>| #[trigger] call_ensures(get, (k,), out) ==> out == m(k@)
}

/// The numbers that options give, each under its own name.
pub open spec fn params_read(
    m: spec_fn(Seq<char>) -> Option<Scalar>,
    shape: Option<u32>,
    floats: [Option<Scalar>; 4],
) -> NodeParams {
    NodeParams {
        value: m("value"@),
        t: m("t"@),
        from: m("from"@),
        to: m("to"@),
        in_from: m("in_from"@),
        in_to: m("in_to"@),
        out_from: m("out_from"@),
        out_to: m("out_to"@),
        min: m("min"@),
        max: m("max"@),
        x: m("x"@),
        y: m("y"@),
        z: m("z"@),
        shape,
        floats,
    }
}

/// The names under which scripts give numbers to a node.
pub open spec fn param_keys() -> Seq<Seq<char>> {
    seq![
        "value"@,
        "t"@,
        "from"@,
        "to"@,
        "in_from"@,
        "in_to"@,
        "out_from"@,
        "out_to"@,
        "min"@,
        "max"@,
        "x"@,
        "y"@,
        "z"@,
    ]
}

/// The names under which scripts give numbers to a node.
pub fn option_names() -> (r: Vec<&'static str>)
    ensures
        Seq::new(r@.len(), |i: int| r@[i]@) == param_keys(),
{
    let mut r: Vec<&'static str> = Vec::new();
    r.push("value");
    r.push("t");
    r.push("from");
    r.push("to");
    r.push("in_from");
    r.push("in_to");
    r.push("out_from");
    r.push("out_to");
    r.push("min");
    r.push("max");
    r.push("x");
    r.push("y");
    r.push("z");
    assert(Seq::new(r@.len(), |i: int| r@[i]@) =~= param_keys());
    r
}

/// Reads the numbers for a node; `get` looks one up by its name.
pub fn read_params<G: Fn(&'static str) -> Option<Scalar>>(
    get: &G,
    shape: Option<u32>,
    floats: [Option<Scalar>; 4],
) -> (r: NodeParams)
    requires
        forall|k: &'static str| call_requires(*get, (k,)),
    ensures
        forall|m: spec_fn(Seq<char>) -> Option<Scalar>|
            finds(*get, m) ==> r == #[trigger] params_read(m, shape, floats),
{
    let f_value = (*get)("value");
    let f_t = (*get)("t");
    let f_from = (*get)("from");
    let f_to = (*get)("to");
    let f_in_from = (*get)("in_from");
    let f_in_to = (*get)("in_to");
    let f_out_from = (*get)("out_from");
    let f_out_to = (*get)("out_to");
    let f_min = (*get)("min");
    let f_max = (*get)("max");
    let f_x = (*get)("x");
    let f_y = (*get)("y");
    let f_z = (*get)("z");
    let r = NodeParams {
        value: f_value,
        t: f_t,
        from: f_from,
        to: f_to,
        in_from: f_in_from,
        in_to: f_in_to,
        out_from: f_out_from,
        out_to: f_out_to,
        min: f_min,
        max: f_max,
        x: f_x,
        y: f_y,
        z: f_z,
        shape,
        floats,
    };
    assert forall|m: spec_fn(Seq<char>) -> Option<Scalar>| finds(*get, m) implies r
        == #[trigger] params_read(m, shape, floats) by {
        assert(f_value == m("value"@));
        assert(f_t == m("t"@));
        assert(f_from == m("from"@));
        assert(f_to == m("to"@));
        assert(f_in_from == m("in_from"@));
        assert(f_in_to == m("in_to"@));
        assert(f_out_from == m("out_from"@));
        assert(f_out_to == m("out_to"@));
        assert(f_min == m("min"@));
        assert(f_max == m("max"@));
        assert(f_x == m("x"@));
        assert(f_y == m("y"@));
        assert(f_z == m("z"@));
    }
    r
}

/// `m` finds, under the names that the options of `n` give its numbers, just
/// those numbers, and nothing under other names.
pub open spec fn options_of(n: DriverNodeView, m: spec_fn(Seq<char>) -> Option<Scalar>) -> bool {
    let ps = param_names(n.kind);
    &&& forall|i: int| 0 <= i < ps.len() ==> m((#[trigger] ps[i]).0) == Some(n.floats[ps[i].1])
    &&& forall|k: Seq<char>|
        (forall|i: int| 0 <= i < ps.len() ==> (#[trigger] ps[i]).0 != k) ==> #[trigger] m(k) is None
}

/// The options that are written for a node give its numbers back: read into
/// another node, each number lands in the place that it was written from, and
/// every other place stays.
pub proof fn law_options_read_back(
    n: DriverNodeView,
    m: spec_fn(Seq<char>) -> Option<Scalar>,
    shape: Option<u32>,
    none: [Option<Scalar>; 4],
    floats: Seq<Scalar>,
    slot: int,
)
    requires
        n.floats.len() == 4,
        floats.len() == 4,
        options_of(n, m),
        forall|i: int| 0 <= i < 4 ==> #[trigger] none@[i] is None,
        0 <= slot < 4,
    ensures
        params_set(floats, params_read(m, shape, none))[slot] == (if exists|i: int|
            0 <= i < param_names(n.kind).len() && (#[trigger] param_names(n.kind)[i]).1 == slot {
            n.floats[slot]
        } else {
            floats[slot]
        }),
        params_read(m, shape, none).shape == shape,
{
    reveal_strlit("value");
    reveal_strlit("t");
    reveal_strlit("from");
    reveal_strlit("to");
    reveal_strlit("in_from");
    reveal_strlit("in_to");
    reveal_strlit("out_from");
    reveal_strlit("out_to");
    reveal_strlit("min");
    reveal_strlit("max");
    reveal_strlit("x");
    reveal_strlit("y");
    reveal_strlit("z");
    let ps = param_names(n.kind);
    assert(none@[0] is None && none@[1] is None && none@[2] is None && none@[3] is None);
    if ps.len() > 0 {
        assert(m(ps[0].0) == Some(n.floats[ps[0].1]));
    }
    if ps.len() > 1 {
        assert(m(ps[1].0) == Some(n.floats[ps[1].1]));
    }
    if ps.len() > 2 {
        assert(m(ps[2].0) == Some(n.floats[ps[2].1]));
    }
    if ps.len() > 3 {
        assert(m(ps[3].0) == Some(n.floats[ps[3].1]));
    }
    lemma_option_names();
    if exists|i: int| 0 <= i < ps.len() && (#[trigger] ps[i]).1 == slot {
        let i = choose|i: int| 0 <= i < ps.len() && (#[trigger] ps[i]).1 == slot;
        assert(i == slot);
    } else if slot < ps.len() {
        assert(ps[slot].1 == slot);
    }
}

/// No two names of numbers are alike.
proof fn lemma_option_names()
    ensures
        param_keys().no_duplicates(),
{
    reveal_strlit("value");
    reveal_strlit("t");
    reveal_strlit("from");
    reveal_strlit("to");
    reveal_strlit("in_from");
    reveal_strlit("in_to");
    reveal_strlit("out_from");
    reveal_strlit("out_to");
    reveal_strlit("min");
    reveal_strlit("max");
    reveal_strlit("x");
    reveal_strlit("y");
    reveal_strlit("z");
    let ks = param_keys();
    assert forall|i: int, j: int| 0 <= i < j < ks.len() implies ks[i] != ks[j] by {
        if ks[i].len() == ks[j].len() {
            assert(ks[i][0] != ks[j][0] || ks[i].last() != ks[j].last() || ks[i][1] != ks[j][1]);
        }
    }
}

/// `b` where it is given, else `a`.
pub open spec fn given(a: Scalar, b: Option<Scalar>) -> Scalar {
    match b {
        Some(x) => x,
        None => a,
    }
}

/// The parameters of a node after a script set them; of several names for one
/// place the later in the list wins.
pub open spec fn params_set(f: Seq<Scalar>, p: NodeParams) -> Seq<Scalar> {
    seq![
        given(
            given(given(given(given(given(given(f[0], p.value), p.t), p.from), p.in_from), p.min), p.x),
            p.floats@[0],
        ),
        given(given(given(given(given(f[1], p.to), p.in_to), p.max), p.y), p.floats@[1]),
        given(given(given(f[2], p.out_from), p.z), p.floats@[2]),
        given(given(f[3], p.out_to), p.floats@[3]),
    ]
}

fn pick(a: Scalar, b: Option<Scalar>) -> (r: Scalar)
    ensures
        r == given(a, b),
{
    match b {
        Some(x) => x,
        None => a,
    }
}

/// Sets the numbers of a node.
pub fn apply_node_floats(node: &mut DriverNode, p: &NodeParams)
    ensures
        final(node)@ == (DriverNodeView {
            floats: params_set(old(node)@.floats, *p),
            shape: match p.shape {
                Some(s) => s as usize,
                None => old(node)@.shape,
            },
            ..old(node)@
        }),
{
    let f = node.floats;
    let a = pick(
        pick(pick(pick(pick(pick(pick(f[0], p.value), p.t), p.from), p.in_from), p.min), p.x),
        p.floats[0],
    );
    let b = pick(pick(pick(pick(pick(f[1], p.to), p.in_to), p.max), p.y), p.floats[1]);
    let c = pick(pick(pick(f[2], p.out_from), p.z), p.floats[2]);
    let d = pick(pick(f[3], p.out_to), p.floats[3]);
    node.floats = [a, b, c, d];
    assert(node@.floats =~= params_set(old(node)@.floats, *p));
    if let Some(s) = p.shape {
        node.shape = s as usize;
    }
}

/// Numbers that a script sets on a soft chain; what is `None` stays. The angle
/// is in radians.
pub struct SoftParams {
    pub gravity: Option<Scalar>,
    pub stiffness: Option<Scalar>,
    pub damping: Option<Scalar>,
    pub inertia: Option<Scalar>,
    pub max_angle: Option<Scalar>,
}

/// The chain as tuned by a script, where it is chain `id`.
pub open spec fn soft_tuned(c: SoftView, id: u32, p: SoftParams) -> SoftView {
    if c.id == id {
        SoftView {
            gravity: given(c.gravity, p.gravity),
            stiffness: given(c.stiffness, p.stiffness),
            damping: given(c.damping, p.damping),
            inertia: given(c.inertia, p.inertia),
            max_angle: given(c.max_angle, p.max_angle),
            ..c
        }
    } else {
        c
    }
}

pub open spec fn has_soft_id(cs: Seq<SoftView>, id: u32) -> bool {
    exists|i: int| 0 <= i < cs.len() && (#[trigger] cs[i]).id == id
}

/// What the options of a new node say.
pub struct NodeOpts {
    pub bone: Option<String>,
    pub space: Option<String>,
    pub params: NodeParams,
}

/// A node after a script set its options: bone `bone` and space `space` where
/// given.
pub open spec fn node_set(
    n: DriverNodeView,
    bone: Option<BoneId>,
    space: Option<DriverSpace>,
    p: NodeParams,
) -> DriverNodeView {
    DriverNodeView {
        bone: if bone is Some {
            bone
        } else {
            n.bone
        },
        space: match space {
            Some(s) => s,
            None => n.space,
        },
        floats: params_set(n.floats, p),
        shape: match p.shape {
            Some(s) => s as usize,
            None => n.shape,
        },
        ..n
    }
}

/// What setting the options of a node gives: the place of the driver, the place
/// of the node, and the node afterwards; or what is wrong.
pub open spec fn opts_outcome(
    r: RigView,
    driver_id: u32,
    node_id: Seq<char>,
    bone: Option<Seq<char>>,
    space: Option<Seq<char>>,
    p: NodeParams,
) -> Result<(int, int, DriverNodeView), Seq<char>> {
    let b = match bone {
        Some(name) => first_named(r.bones, name),
        None => None,
    };
    let s = match space {
        Some(name) => space_named(lower_of(trim_of(name))),
        None => None,
    };
    if bone is Some && b is None {
        Err(unknown_bone(bone->0))
    } else if space is Some && s is None {
        Err(unknown_space(space->0))
    } else {
        match driver_find(r.drivers, driver_id) {
            None => Err(unknown_driver(driver_id)),
            Some(d) => match dnode_find(r.drivers[d].nodes, node_id) {
                None => Err("unknown node '"@ + node_id + "'"@),
                Some(i) => Ok((d, i, node_set(r.drivers[d].nodes[i], b, s, p))),
            },
        }
    }
}

pub open spec fn string_opt(s: Option<String>) -> Option<Seq<char>> {
    match s {
        Some(t) => Some(t@),
        None => None,
    }
}

/// `r` with node `i` of driver `d` replaced.
pub open spec fn with_node(r: RigView, d: int, i: int, n: DriverNodeView) -> RigView {
    RigView {
        drivers: r.drivers.update(
            d,
            DriverView { nodes: r.drivers[d].nodes.update(i, n), ..r.drivers[d] },
        ),
        ..r
    }
}

/// The next id: one above the highest that a driver has, or 1.
pub open spec fn unused_driver_id(ds: Seq<DriverView>, id: u32) -> bool {
    &&& forall|i: int| 0 <= i < ds.len() ==> (#[trigger] ds[i]).id < id
    &&& id == 1 || exists|i: int| 0 <= i < ds.len() && (#[trigger] ds[i]).id + 1 == id
}

impl RigDocument {
    /// The first bone called `name`.
    pub fn bone_by_name(&self, name: &str) -> (r: Option<BoneId>)
        ensures
            r == first_named(self@.bones, name@),
    {
        let ghost bs = self@.bones;
        let mut i: usize = 0;
        assert(bs.skip(0) =~= bs);
        while i < self.bones.len()
            invariant
                i <= self.bones@.len(),
                bs == self@.bones,
                first_named(bs, name@) == first_named(bs.skip(i as int), name@),
            decreases self.bones.len() - i,
        {
            assert(bs.skip(i as int)[0] == self.bones@[i as int]@);
            assert(bs.skip(i as int).skip(1) =~= bs.skip(i as int + 1));
            if same_text(&self.bones[i].name, name) {
                return Some(self.bones[i].id);
            }
            i = i + 1;
        }
        None
    }

    /// The bone called `name`, or a message that there is none.
    pub fn require_bone(&self, name: &str) -> (r: Result<BoneId, String>)
        ensures
            match r {
                Ok(id) => first_named(self@.bones, name@) == Some(id),
                Err(e) => first_named(self@.bones, name@) is None && e@ == unknown_bone(name@),
            },
    {
        match self.bone_by_name(name) {
            Some(id) => Ok(id),
            None => Err(join(&join("unknown bone '", name), "' (rig.list_bones())")),
        }
    }

    /// The names of the bones that match `pattern`, in order.
    pub fn bones_matching(&self, pattern: &str) -> (r: Vec<String>)
        ensures
            texts_view(r@) == bone_names(self@.bones).filter(
                |name: Seq<char>| glob_text(pattern@, name),
            ),
    {
        let ghost all = bone_names(self@.bones);
        let ghost p = |name: Seq<char>| glob_text(pattern@, name);
        let mut out: Vec<String> = Vec::new();
        let mut i: usize = 0;
        proof {
            lemma_filter_ends(all, p);
        }
        assert(texts_view(out@) =~= Seq::empty());
        while i < self.bones.len()
            invariant
                i <= self.bones@.len(),
                all == bone_names(self@.bones),
                p == (|name: Seq<char>| glob_text(pattern@, name)),
                texts_view(out@) == all.take(i as int).filter(p),
            decreases self.bones.len() - i,
        {
            let name = &self.bones[i].name;
            assert(all[i as int] == name@);
            proof {
                lemma_filter_step(all, p, i as int);
            }
            if glob_match(pattern, name.as_str()) {
                let ghost o = out@;
                out.push(name.clone());
                assert(texts_view(out@) =~= texts_view(o).push(name@));
            }
            i = i + 1;
        }
        out
    }

    /// The place of driver `id`.
    pub fn find_driver(&self, id: u32) -> (r: Option<usize>)
        ensures
            match r {
                Some(i) => driver_find(self@.drivers, id) == Some(i as int) && i
                    < self.drivers@.len(),
                None => driver_find(self@.drivers, id) is None,
            },
    {
        proof {
            lemma_driver_find(self@.drivers, id);
        }
        let mut i: usize = 0;
        while i < self.drivers.len()
            invariant
                i <= self.drivers@.len(),
                forall|j: int| 0 <= j < i ==> (#[trigger] self@.drivers[j]).id != id,
            decreases self.drivers.len() - i,
        {
            assert(self@.drivers[i as int].id == self.drivers@[i as int].id);
            if self.drivers[i].id == id {
                proof {
                    lemma_driver_find(self@.drivers, id);
                }
                return Some(i);
            }
            i = i + 1;
        }
        None
    }

    /// Driver `id`, for editing.
    pub fn driver_mut(&mut self, id: u32) -> (r: Option<&mut Driver>)
        ensures
            match r {
                Some(d) => {
                    &&& driver_find(old(self)@.drivers, id) is Some
                    &&& d@ == old(self)@.drivers[driver_find(old(self)@.drivers, id)->0]
                    &&& final(self)@.drivers == old(self)@.drivers.update(
                        driver_find(old(self)@.drivers, id)->0,
                        final(d)@,
                    )
                    &&& final(self)@ == (RigView { drivers: final(self)@.drivers, ..old(self)@ })
                    &&& old(self).wf() ==> final(self).wf()
                },
                None => driver_find(old(self)@.drivers, id) is None && *final(self) == *old(self),
            },
    {
        match self.find_driver(id) {
            Some(i) => Some(&mut self.drivers[i]),
            None => None,
        }
    }

    /// Adds an empty driver on the canvas `space`, under an id above all others,
    /// and returns the id.
    pub fn create_driver(&mut self, space: NodeSpace) -> (r: u32)
        requires
            old(self).wf(),
            forall|i: int|
                0 <= i < old(self)@.drivers.len() ==> (#[trigger] old(self)@.drivers[i]).id
                    < u32::MAX,
        ensures
            final(self).wf(),
            unused_driver_id(old(self)@.drivers, r),
            final(self)@ == (RigView {
                drivers: old(self)@.drivers.push(
                    fresh_driver(r, "Driver_"@ + decimal_of(r as nat), space@),
                ),
                ..old(self)@
            }),
    {
        let mut id: u32 = 1;
        let mut i: usize = 0;
        while i < self.drivers.len()
            invariant
                i <= self.drivers@.len(),
                *self == *old(self),
                forall|j: int|
                    0 <= j < self@.drivers.len() ==> (#[trigger] self@.drivers[j]).id < u32::MAX,
                forall|j: int| 0 <= j < i ==> (#[trigger] self@.drivers[j]).id < id,
                id == 1 || exists|j: int|
                    0 <= j < self@.drivers.len() && (#[trigger] self@.drivers[j]).id + 1 == id,
            decreases self.drivers.len() - i,
        {
            assert(self@.drivers[i as int].id == self.drivers@[i as int].id);
            if self.drivers[i].id >= id {
                id = self.drivers[i].id + 1;
            }
            i = i + 1;
        }
        let name = join("Driver_", &decimal(id as u64));
        let ghost ds = self@.drivers;
        let d = Driver::new(id, name, space);
        self.drivers.push(d);
        assert(self@.drivers =~= ds.push(d@));
        id
    }

    /// Removes the drivers with id `id`.
    pub fn remove_driver(&mut self, id: u32)
        requires
            old(self).wf(),
        ensures
            final(self).wf(),
            final(self)@ == (RigView {
                drivers: old(self)@.drivers.filter(|d: DriverView| d.id != id),
                ..old(self)@
            }),
    {
        let ghost all = self@.drivers;
        let ghost p = |d: DriverView| d.id != id;
        let mut rest: Vec<Driver> = Vec::new();
        rest.append(&mut self.drivers);
        let ghost exec_all = rest@;
        let mut out: Vec<Driver> = Vec::new();
        proof {
            lemma_filter_ends(all, p);
        }
        assert(drivers_view(out@) =~= Seq::empty());
        for d in it: rest
            invariant
                it.seq() == exec_all,
                all == drivers_view(exec_all),
                p == (|d: DriverView| d.id != id),
                drivers_view(out@) == all.take(it.index() as int).filter(p),
        {
            assert(d@ == all[it.index() as int]);
            proof {
                lemma_filter_step(all, p, it.index() as int);
            }
            if d.id != id {
                let ghost o = out@;
                out.push(d);
                assert(drivers_view(out@) =~= drivers_view(o).push(d@));
            }
        }
        self.drivers = out;
    }

    /// Makes a driver for a script, under `name` where that is not empty.
    /// Whether the host must switch to Pose, where drivers run, comes back with
    /// the id.
    pub fn script_create_driver(&mut self, space: NodeSpace, name: Option<String>) -> (r: (u32, bool))
        requires
            old(self).wf(),
            forall|i: int|
                0 <= i < old(self)@.drivers.len() ==> (#[trigger] old(self)@.drivers[i]).id
                    < u32::MAX,
        ensures
            final(self).wf(),
            unused_driver_id(old(self)@.drivers, r.0),
            r.1 == (old(self)@.mode != AppMode::Pose),
            final(self)@ == (RigView {
                drivers: old(self)@.drivers.push(
                    fresh_driver(
                        r.0,
                        match string_opt(name) {
                            Some(n) => if n.len() > 0 {
                                n
                            } else {
                                "Driver_"@ + decimal_of(r.0 as nat)
                            },
                            None => "Driver_"@ + decimal_of(r.0 as nat),
                        },
                        space@,
                    ),
                ),
                ..old(self)@
            }),
    {
        let ghost ds = self@.drivers;
        let id = self.create_driver(space);
        if let Some(n) = name {
            if !n.as_str().is_empty() {
                let ghost before = self@.drivers;
                assert(before.len() == ds.len() + 1);
                assert(self.drivers@.len() == before.len());
                let at = self.drivers.len() - 1;
                assert(before[at as int] == self.drivers@[at as int]@);
                let ghost was = self.drivers@;
                self.drivers[at].name = n;
                assert(forall|j: int| 0 <= j < at ==> self.drivers@[j] == was[j]);
                assert(self@.drivers =~= ds.push(DriverView { name: n@, ..before[at as int] })) by {
                    assert forall|j: int| 0 <= j < at implies self@.drivers[j] == ds[j] by {
                        assert(before[j] == ds[j]);
                        assert(before[j] == was[j]@);
                    }
                }
            }
        }
        (id, self.mode != AppMode::Pose)
    }

    /// Sets the options of a node as a script gives them.
    pub fn apply_node_opts(&mut self, driver_id: u32, node_id: &str, opts: &NodeOpts) -> (r: Result<
        (),
        String,
    >)
        requires
            old(self).wf(),
        ensures
            final(self).wf(),
            match (
                r,
                opts_outcome(
                    old(self)@,
                    driver_id,
                    node_id@,
                    string_opt(opts.bone),
                    string_opt(opts.space),
                    opts.params,
                ),
            ) {
                (Ok(_), Ok((d, i, n))) => final(self)@ == with_node(old(self)@, d, i, n),
                (Err(e), Err(f)) => e@ == f && final(self)@ == old(self)@,
                _ => false,
            },
    {
        let bone = match &opts.bone {
            Some(name) => match self.require_bone(name) {
                Ok(b) => Some(b),
                Err(e) => {
                    return Err(e);
                },
            },
            None => None,
        };
        let space = match &opts.space {
            Some(name) => match DriverSpace::from_name(name) {
                Some(s) => Some(s),
                None => {
                    return Err(join(&join("unknown space '", name), "' (local|world|offset)"));
                },
            },
            None => None,
        };
        let d = match self.find_driver(driver_id) {
            Some(d) => d,
            None => {
                return Err(join("unknown driver ", &decimal(driver_id as u64)));
            },
        };
        assert(self@.drivers[d as int] == self.drivers@[d as int]@);
        let i = match self.drivers[d].find(node_id) {
            Some(i) => i,
            None => {
                return Err(join(&join("unknown node '", node_id), "'"));
            },
        };
        self.set_node(d, i, bone, space, &opts.params);
        Ok(())
    }

    /// Sets bone, space and numbers of node `i` of driver `d`.
    fn set_node(
        &mut self,
        d: usize,
        i: usize,
        bone: Option<BoneId>,
        space: Option<DriverSpace>,
        p: &NodeParams,
    )
        requires
            old(self).wf(),
            d < old(self)@.drivers.len(),
            i < old(self)@.drivers[d as int].nodes.len(),
        ensures
            final(self).wf(),
            final(self)@ == with_node(
                old(self)@,
                d as int,
                i as int,
                node_set(old(self)@.drivers[d as int].nodes[i as int], bone, space, *p),
            ),
    {
        let ghost r0 = self@;
        let ghost d0 = r0.drivers[d as int];
        let ghost n0 = d0.nodes[i as int];
        assert(d0 == self.drivers@[d as int]@);
        let mut driver = self.drivers.remove(d);
        assert(driver@ == d0);
        let mut node = driver.nodes.remove(i);
        assert(node@ == n0);
        if bone.is_some() {
            node.bone = bone;
        }
        if let Some(s) = space {
            node.space = s;
        }
        apply_node_floats(&mut node, p);
        assert(node@ =~= node_set(n0, bone, space, *p));
        driver.nodes.insert(i, node);
        assert(driver@.nodes =~= d0.nodes.update(i as int, node@));
        self.drivers.insert(d, driver);
        assert(self@.drivers =~= r0.drivers.update(
            d as int,
            DriverView { nodes: d0.nodes.update(i as int, node@), ..d0 },
        ));
    }

    /// Tunes soft chain `id` as a script gives it.
    pub fn tune_soft(&mut self, id: u32, p: &SoftParams) -> (r: Result<(), String>)
        requires
            old(self).wf(),
        ensures
            final(self).wf(),
            match r {
                Ok(_) => has_soft_id(old(self)@.soft_chains, id) && final(self)@ == (RigView {
                    soft_chains: old(self)@.soft_chains.map_values(
                        |c: SoftView| soft_tuned(c, id, *p),
                    ),
                    ..old(self)@
                }),
                Err(e) => !has_soft_id(old(self)@.soft_chains, id) && final(self)@ == old(self)@
                    && e@ == "unknown soft chain "@ + decimal_of(id as nat),
            },
    {
        let ghost cs = self@.soft_chains;
        let ghost f = |c: SoftView| soft_tuned(c, id, *p);
        let mut i: usize = 0;
        while i < self.soft_chains.len()
            invariant
                i <= self.soft_chains@.len(),
                *self == *old(self),
                cs == self@.soft_chains,
                f == (|c: SoftView| soft_tuned(c, id, *p)),
                self.wf(),
                forall|j: int| 0 <= j < i ==> (#[trigger] cs[j]).id != id,
            decreases self.soft_chains.len() - i,
        {
            assert(cs[i as int] == self.soft_chains@[i as int]@);
            if self.soft_chains[i].id == id {
                let g = pick(self.soft_chains[i].gravity, p.gravity);
                let s = pick(self.soft_chains[i].stiffness, p.stiffness);
                let d = pick(self.soft_chains[i].damping, p.damping);
                let n = pick(self.soft_chains[i].inertia, p.inertia);
                let a = pick(self.soft_chains[i].max_angle, p.max_angle);
                self.soft_chains[i].gravity = g;
                self.soft_chains[i].stiffness = s;
                self.soft_chains[i].damping = d;
                self.soft_chains[i].inertia = n;
                self.soft_chains[i].max_angle = a;
                assert(self@.soft_chains =~= cs.map_values(f)) by {
                    assert forall|j: int| 0 <= j < cs.len() implies self@.soft_chains[j] == f(
                        cs[j],
                    ) by {
                        if j != i {
                            assert(self@.soft_chains[j] == cs[j]);
                            if i < j {
                                assert(cs[i as int].id != cs[j].id);
                            }
                        } else {
                            assert(self@.soft_chains[j] =~= f(cs[j]));
                        }
                    }
                }
                return Ok(());
            }
            i = i + 1;
        }
        Err(join("unknown soft chain ", &decimal(id as u64)))
    }

    /// What to report after script `file` ran.
    pub fn script_summary(&self, file: &str) -> (r: String)
        ensures
            r@ == "Script "@ + file@ + " · "@ + decimal_of(self@.bones.len()) + " bones · "@
                + decimal_of(self@.drivers.len()) + " drivers · "@ + decimal_of(
                self@.ik_chains.len(),
            ) + " IK"@,
    {
        let mut out = String::new();
        out.append("Script ");
        out.append(file);
        out.append(" · ");
        out.append(&decimal(self.bones.len() as u64));
        out.append(" bones · ");
        out.append(&decimal(self.drivers.len() as u64));
        out.append(" drivers · ");
        out.append(&decimal(self.ik_chains.len() as u64));
        out.append(" IK");
        assert(out@ =~= "Script "@ + file@ + " · "@ + decimal_of(self@.bones.len()) + " bones · "@
            + decimal_of(self@.drivers.len()) + " drivers · "@ + decimal_of(self@.ik_chains.len())
            + " IK"@);
        out
    }
}

/// The names of the bones, in order.
pub open spec fn bone_names(bs: Seq<BoneView>) -> Seq<Seq<char>> {
    Seq::new(bs.len(), |i: int| bs[i].name)
}

/// Column and row in which a script's `n`-th node is put.
pub fn script_cell(n: usize) -> (r: (usize, usize))
    ensures
        r.0 == n % 4,
        r.1 == n / 4,
{
    (n % 4, n / 4)
}

/// What the command line asks for.
pub enum ScriptArgs {
    /// The usage text.
    Help,
    /// A run, with a script to start with where one is named.
    Run(Option<String>),
}

/// `s` begins with `p`.
pub open spec fn begins(s: Seq<char>, p: Seq<char>) -> bool {
    s.len() >= p.len() && s.take(p.len() as int) == p
}

/// `s` ends with `p`.
pub open spec fn ends(s: Seq<char>, p: Seq<char>) -> bool {
    s.len() >= p.len() && s.skip(s.len() - p.len()) == p
}

/// The arguments from `i` on, where `script` was named so far: nothing for
/// help, the script, or what is wrong.
pub open spec fn args_read(args: Seq<Seq<char>>, i: nat, script: Option<Seq<char>>) -> Result<
    Option<Option<Seq<char>>>,
    Seq<char>,
>
    decreases args.len() - i,
{
    if i >= args.len() {
        Ok(Some(script))
    } else {
        let a = args[i as int];
        if a == "-h"@ || a == "--help"@ {
            Ok(None)
        } else if a == "-s"@ || a == "--script"@ {
            if i + 1 >= args.len() {
                Err("--script needs a path"@)
            } else {
                args_read(args, i + 2, Some(args[i as int + 1]))
            }
        } else if begins(a, "-"@) {
            Err("unknown argument '"@ + a + "' (try --help)"@)
        } else if ends(a, ".lua"@) {
            args_read(args, i + 1, Some(a))
        } else {
            Err("unexpected argument '"@ + a + "' (try --help)"@)
        }
    }
}

fn starts_with_dash(s: &str) -> (r: bool)
    ensures
        r == begins(s@, "-"@),
{
    let cs = chars_of(s);
    proof {
        reveal_strlit("-");
        if cs@.len() > 0 {
            assert(cs@.take(1) =~= seq![cs@[0]]);
            assert("-"@ =~= seq!['-']);
        }
        if begins(s@, "-"@) {
            assert(s@.take(1)[0] == "-"@[0]);
        }
    }
    cs.len() > 0 && cs[0] == '-'
}

fn ends_with_lua(s: &str) -> (r: bool)
    ensures
        r == ends(s@, ".lua"@),
{
    let cs = chars_of(s);
    let n = cs.len();
    proof {
        reveal_strlit(".lua");
        if n >= 4 {
            let t = s@.skip(n - 4);
            assert(t[0] == s@[n - 4] && t[1] == s@[n - 3] && t[2] == s@[n - 2] && t[3] == s@[n - 1]);
            if t[0] == '.' && t[1] == 'l' && t[2] == 'u' && t[3] == 'a' {
                assert(t =~= ".lua"@);
            }
            if t == ".lua"@ {
                assert(t[0] == '.' && t[1] == 'l' && t[2] == 'u' && t[3] == 'a');
            }
        }
    }
    n >= 4 && cs[n - 4] == '.' && cs[n - 3] == 'l' && cs[n - 2] == 'u' && cs[n - 1] == 'a'
}

/// Reads the command line, program name left out.
pub fn parse_script_arg(args: &Vec<String>) -> (r: Result<ScriptArgs, String>)
    ensures
        match (r, args_read(texts_view(args@), 0, None)) {
            (Ok(ScriptArgs::Help), Ok(None)) => true,
            (Ok(ScriptArgs::Run(s)), Ok(Some(t))) => string_opt(s) == t,
            (Err(e), Err(f)) => e@ == f,
            _ => false,
        },
{
    let ghost all = texts_view(args@);
    let mut script: Option<String> = None;
    let mut i: usize = 0;
    let n = args.len();
    while i < n
        invariant
            i <= n,
            n == args@.len(),
            all == texts_view(args@),
            args_read(all, 0, None) == args_read(all, i as nat, string_opt(script)),
        decreases n - i,
    {
        let a = args[i].as_str();
        assert(all[i as int] == a@);
        if same_text(a, "-h") || same_text(a, "--help") {
            return Ok(ScriptArgs::Help);
        } else if same_text(a, "-s") || same_text(a, "--script") {
            if i + 1 >= n {
                return Err("--script needs a path".to_owned());
            }
            script = Some(args[i + 1].clone());
            assert(all[i + 1] == args@[i + 1]@);
            i = i + 2;
        } else if starts_with_dash(a) {
            return Err(join(&join("unknown argument '", a), "' (try --help)"));
        } else if ends_with_lua(a) {
            script = Some(a.to_owned());
            i = i + 1;
        } else {
            return Err(join(&join("unexpected argument '", a), "' (try --help)"));
        }
    }
    Ok(ScriptArgs::Run(script))
}

} // verus!
