//! Weight overlay: which triangles of the skinned meshes the selected bones pull
//! on, and how strongly.

use vstd::prelude::*;
use crate::bones::BoneId;
use crate::geom::{Scalar, BITS_0_001, BITS_ZERO};
use crate::mesh_faces::{face_count, faces_of, sound, sound_faces, Face};
use crate::order::{larger, less_than, nan};
use crate::rig::{OverlayTri, RigDocument, RigView};
use crate::scene::{MeshHandle, NodeHandle, NodeView, Scene, SceneView, SkinHandle, SkinView};

verus! {

/// A node that carries both a mesh and a skin.
#[derive(Clone, Copy, Debug, PartialEq, Eq, Structural)]
pub struct SkinnedPart {
    pub node: NodeHandle,
    pub mesh: MeshHandle,
    pub skin: SkinHandle,
}

/// The skinned nodes, in order.
pub open spec fn parts_of(nodes: Seq<NodeView>) -> Seq<SkinnedPart>
    decreases nodes.len(),
{
    if nodes.len() == 0 {
        Seq::empty()
    } else {
        let n = nodes.last();
        let front = parts_of(nodes.drop_last());
        match (n.mesh, n.skin) {
            (Some(mesh), Some(skin)) => front.push(SkinnedPart { node: n.handle, mesh, skin }),
            _ => front,
        }
    }
}

/// What a mesh holds of its skinning.
pub struct MeshSkin {
    pub handle: MeshHandle,
    /// How many vertices it has.
    pub vertices: usize,
    /// Four joints of each vertex, by place in the skin.
    pub joints: Option<Vec<[u16; 4]>>,
    /// The weights of those joints.
    pub weights: Option<Vec<[Scalar; 4]>>,
    pub indices: Vec<u32>,
}

#[verifier::ext_equal]
pub struct MeshSkinView {
    pub handle: MeshHandle,
    pub vertices: nat,
    pub joints: Option<Seq<[u16; 4]>>,
    pub weights: Option<Seq<[Scalar; 4]>>,
    pub indices: Seq<u32>,
}

impl View for MeshSkin {
    type V = MeshSkinView;

    open spec fn view(&self) -> MeshSkinView {
        MeshSkinView {
            handle: self.handle,
            vertices: self.vertices as nat,
            joints: match self.joints {
                Some(v) => Some(v@),
                None => None,
            },
            weights: match self.weights {
                Some(v) => Some(v@),
                None => None,
            },
            indices: self.indices@,
        }
    }
}

pub open spec fn mesh_skins_view(s: Seq<MeshSkin>) -> Seq<MeshSkinView> {
    Seq::new(s.len(), |i: int| s[i]@)
}

/// A triangle and the strongest pull on its corners.
#[derive(Clone, Copy, Debug, PartialEq, Eq, Structural)]
pub struct HeatFace {
    pub face: Face,
    pub weight: Scalar,
}

/// The triangles of one part that the selection pulls on.
pub struct OverlayPart {
    pub part: SkinnedPart,
    pub faces: Vec<HeatFace>,
    /// Which vertices the triangles use.
    pub needed: Vec<bool>,
}

#[verifier::ext_equal]
pub struct OverlayPartView {
    pub part: SkinnedPart,
    pub faces: Seq<HeatFace>,
    pub needed: Seq<bool>,
}

impl View for OverlayPart {
    type V = OverlayPartView;

    open spec fn view(&self) -> OverlayPartView {
        OverlayPartView { part: self.part, faces: self.faces@, needed: self.needed@ }
    }
}

pub open spec fn overlay_parts_view(s: Seq<OverlayPart>) -> Seq<OverlayPartView> {
    Seq::new(s.len(), |i: int| s[i]@)
}

/// For each joint, whether its bone is selected.
pub open spec fn flags_of(r: RigView, joints: Seq<NodeHandle>) -> Seq<bool> {
    Seq::new(joints.len(), |i: int| r.selected.contains(BoneId { node: joints[i] }))
}

/// Joint `k` of a vertex is there and selected.
pub open spec fn pulls(flags: Seq<bool>, joints: [u16; 4], k: int) -> bool {
    joints@[k] < flags.len() && flags[joints@[k] as int]
}

/// The strongest weight that the first `k` joints of a vertex have, of those
/// that are selected; zero where none is.
pub open spec fn pull_of(
    flags: Seq<bool>,
    joints: [u16; 4],
    weights: [Scalar; 4],
    k: int,
) -> Scalar
    decreases k,
{
    if k <= 0 {
        Scalar { bits: BITS_ZERO }
    } else {
        let was = pull_of(flags, joints, weights, k - 1);
        if pulls(flags, joints, k - 1) {
            larger(was, weights@[k - 1])
        } else {
            was
        }
    }
}

/// The pull on a vertex is a number, is at least zero, is at least the weight of
/// each selected joint, and is zero or such a weight.
pub proof fn law_pull(flags: Seq<bool>, joints: [u16; 4], weights: [Scalar; 4], k: int)
    requires
        0 <= k <= 4,
    ensures
        ({
            let p = pull_of(flags, joints, weights, k);
            &&& !nan(p)
            &&& !less_than(p, Scalar { bits: BITS_ZERO })
            &&& forall|i: int|
                0 <= i < k && pulls(flags, joints, i) ==> !less_than(p, #[trigger] weights@[i])
            &&& p == (Scalar { bits: BITS_ZERO }) || exists|i: int|
                0 <= i < k && pulls(flags, joints, i) && p == #[trigger] weights@[i]
        }),
    decreases k,
{
    let zero = Scalar { bits: BITS_ZERO };
    let p = pull_of(flags, joints, weights, k);
    if k > 0 {
        law_pull(flags, joints, weights, k - 1);
        let was = pull_of(flags, joints, weights, k - 1);
        if pulls(flags, joints, k - 1) && p == weights@[k - 1] {
        } else {
            assert(p == was);
            if was != zero {
                let i = choose|i: int|
                    0 <= i < k - 1 && pulls(flags, joints, i) && was == #[trigger] weights@[i];
                assert(0 <= i < k && pulls(flags, joints, i) && p == weights@[i]);
            }
        }
    } else {
        assert(!nan(zero) && !less_than(zero, zero));
    }
}

/// The pull on each of `n` vertices.
pub open spec fn pulls_of(
    flags: Seq<bool>,
    joints: Seq<[u16; 4]>,
    weights: Seq<[Scalar; 4]>,
    n: nat,
) -> Seq<Scalar> {
    Seq::new(n, |i: int| pull_of(flags, joints[i], weights[i], 4))
}

/// The strongest pull on the corners of `f`.
pub open spec fn face_pull(w: Seq<Scalar>, f: Face) -> Scalar {
    larger(larger(w[f.a as int], w[f.b as int]), w[f.c as int])
}

/// The faces whose pull is not negligible.
pub open spec fn heated(faces: Seq<Face>, w: Seq<Scalar>) -> Seq<HeatFace>
    decreases faces.len(),
{
    if faces.len() == 0 {
        Seq::empty()
    } else {
        let f = faces.last();
        let front = heated(faces.drop_last(), w);
        if less_than(face_pull(w, f), Scalar { bits: BITS_0_001 }) {
            front
        } else {
            front.push(HeatFace { face: f, weight: face_pull(w, f) })
        }
    }
}

/// Vertex `i` is a corner of `f`.
pub open spec fn is_corner(f: Face, i: int) -> bool {
    f.a == i || f.b == i || f.c == i
}

/// For each of `n` vertices, whether some of the faces uses it.
pub open spec fn needed_of(faces: Seq<HeatFace>, n: nat) -> Seq<bool> {
    Seq::new(
        n,
        |i: int|
            exists|k: int| 0 <= k < faces.len() && is_corner((#[trigger] faces[k]).face, i),
    )
}

/// The joints of skin `h`, from the first `k` skins.
pub open spec fn joints_of(skins: Seq<SkinView>, h: SkinHandle, k: int) -> Option<Seq<NodeHandle>>
    decreases k,
{
    if k <= 0 {
        None
    } else {
        match joints_of(skins, h, k - 1) {
            Some(j) => Some(j),
            None => if skins[k - 1].handle == h {
                Some(skins[k - 1].joints)
            } else {
                None
            },
        }
    }
}

/// What mesh `h` holds, from the first `k` meshes.
pub open spec fn mesh_skin_of(ms: Seq<MeshSkinView>, h: MeshHandle, k: int) -> Option<MeshSkinView>
    decreases k,
{
    if k <= 0 {
        None
    } else {
        match mesh_skin_of(ms, h, k - 1) {
            Some(m) => Some(m),
            None => if ms[k - 1].handle == h {
                Some(ms[k - 1])
            } else {
                None
            },
        }
    }
}

pub open spec fn least(a: nat, b: nat) -> nat {
    if a <= b {
        a
    } else {
        b
    }
}

/// What the overlay shows of a mesh whose joints are flagged.
pub open spec fn mesh_overlay(
    part: SkinnedPart,
    flags: Seq<bool>,
    m: MeshSkinView,
) -> Option<OverlayPartView> {
    match (m.joints, m.weights) {
        (Some(joints), Some(weights)) => {
            let n = least(least(m.vertices, joints.len()), weights.len());
            let w = pulls_of(flags, joints, weights, n);
            let faces = heated(faces_of(m.indices, n, face_count(m.indices)), w);
            if faces.len() == 0 {
                None
            } else {
                Some(OverlayPartView { part, faces, needed: needed_of(faces, n) })
            }
        },
        _ => None,
    }
}

/// What the overlay shows of one part: nothing where its skin or mesh is gone,
/// none of its joints is selected, the mesh is not bound, or no triangle is
/// pulled on.
pub open spec fn part_overlay(
    r: RigView,
    skins: Seq<SkinView>,
    ms: Seq<MeshSkinView>,
    part: SkinnedPart,
) -> Option<OverlayPartView> {
    match joints_of(skins, part.skin, skins.len() as int) {
        None => None,
        Some(joints) => {
            let flags = flags_of(r, joints);
            if !flags.contains(true) {
                None
            } else {
                match mesh_skin_of(ms, part.mesh, ms.len() as int) {
                    None => None,
                    Some(m) => mesh_overlay(part, flags, m),
                }
            }
        },
    }
}

/// What the overlay shows of the first `k` parts.
pub open spec fn overlay_of(
    r: RigView,
    skins: Seq<SkinView>,
    ms: Seq<MeshSkinView>,
    parts: Seq<SkinnedPart>,
    k: int,
) -> Seq<OverlayPartView>
    decreases k,
{
    if k <= 0 {
        Seq::empty()
    } else {
        let front = overlay_of(r, skins, ms, parts, k - 1);
        match part_overlay(r, skins, ms, parts[k - 1]) {
            Some(p) => front.push(p),
            None => front,
        }
    }
}

/// The whole overlay.
pub open spec fn weight_overlay(
    r: RigView,
    s: SceneView,
    ms: Seq<MeshSkinView>,
) -> Seq<OverlayPartView> {
    let parts = parts_of(s.nodes);
    overlay_of(r, s.skins, ms, parts, parts.len() as int)
}

/// With nothing selected there is no overlay.
pub proof fn law_no_selection_no_overlay(r: RigView, s: SceneView, ms: Seq<MeshSkinView>)
    requires
        forall|id: BoneId| !#[trigger] r.selected.contains(id),
    ensures
        weight_overlay(r, s, ms).len() == 0,
{
    let parts = parts_of(s.nodes);
    lemma_none(r, s.skins, ms, parts, parts.len() as int);
}

proof fn lemma_none(
    r: RigView,
    skins: Seq<SkinView>,
    ms: Seq<MeshSkinView>,
    parts: Seq<SkinnedPart>,
    k: int,
)
    requires
        forall|id: BoneId| !#[trigger] r.selected.contains(id),
    ensures
        overlay_of(r, skins, ms, parts, k).len() == 0,
    decreases k,
{
    if k > 0 {
        lemma_none(r, skins, ms, parts, k - 1);
        match joints_of(skins, parts[k - 1].skin, skins.len() as int) {
            Some(joints) => {
                let flags = flags_of(r, joints);
                assert forall|i: int| 0 <= i < flags.len() implies flags[i] != true by {
                    assert(!r.selected.contains(BoneId { node: joints[i] }));
                }
                assert(!flags.contains(true));
            },
            None => {},
        }
    }
}

/// Every triangle of the overlay lies within its mesh, and is pulled on.
pub proof fn law_heated(faces: Seq<Face>, w: Seq<Scalar>, j: int)
    requires
        0 <= j < heated(faces, w).len(),
    ensures
        faces.contains(heated(faces, w)[j].face),
        heated(faces, w)[j].weight == face_pull(w, heated(faces, w)[j].face),
        !less_than(heated(faces, w)[j].weight, Scalar { bits: BITS_0_001 }),
    decreases faces.len(),
{
    let front = faces.drop_last();
    let f = faces.last();
    if j < heated(front, w).len() {
        law_heated(front, w, j);
        let x = heated(front, w)[j].face;
        let i = choose|i: int| 0 <= i < front.len() && front[i] == x;
        assert(faces[i] == x);
        assert(heated(faces, w)[j] == heated(front, w)[j]);
    } else {
        assert(faces[faces.len() - 1] == f);
    }
}

impl Scene {
    /// The nodes that carry both a mesh and a skin.
    pub fn skinned_parts(&self) -> (r: Vec<SkinnedPart>)
        ensures
            r@ == parts_of(self@.nodes),
    {
        let ghost nodes = self@.nodes;
        let mut out: Vec<SkinnedPart> = Vec::new();
        let mut i: usize = 0;
        assert(nodes.take(0) =~= Seq::empty());
        while i < self.nodes.len()
            invariant
                i <= self.nodes@.len(),
                nodes == self@.nodes,
                out@ == parts_of(nodes.take(i as int)),
            decreases self.nodes.len() - i,
        {
            let ghost t = nodes.take(i as int + 1);
            assert(t.drop_last() =~= nodes.take(i as int));
            assert(t.last() == self.nodes@[i as int]@);
            if let Some(mesh) = self.nodes[i].mesh {
                if let Some(skin) = self.nodes[i].skin {
                    out.push(SkinnedPart { node: self.nodes[i].handle, mesh, skin });
                }
            }
            i = i + 1;
        }
        assert(nodes.take(i as int) =~= nodes);
        out
    }

    fn find_skin(&self, h: SkinHandle) -> (r: Option<usize>)
        ensures
            match r {
                Some(k) => k < self.skins@.len() && joints_of(
                    self@.skins,
                    h,
                    self@.skins.len() as int,
                ) == Some(self.skins@[k as int].joints@),
                None => joints_of(self@.skins, h, self@.skins.len() as int) is None,
            },
    {
        let mut found: Option<usize> = None;
        let mut i: usize = 0;
        while i < self.skins.len()
            invariant
                i <= self.skins@.len(),
                match found {
                    Some(k) => k < self.skins@.len() && joints_of(self@.skins, h, i as int) == Some(
                        self.skins@[k as int].joints@,
                    ),
                    None => joints_of(self@.skins, h, i as int) is None,
                },
            decreases self.skins.len() - i,
        {
            assert(self@.skins[i as int] == self.skins@[i as int]@);
            if found.is_none() && self.skins[i].handle == h {
                found = Some(i);
            }
            i = i + 1;
        }
        found
    }
}

fn find_mesh_skin(ms: &Vec<MeshSkin>, h: MeshHandle) -> (r: Option<usize>)
    ensures
        match r {
            Some(k) => k < ms@.len() && mesh_skin_of(mesh_skins_view(ms@), h, ms@.len() as int)
                == Some(ms@[k as int]@),
            None => mesh_skin_of(mesh_skins_view(ms@), h, ms@.len() as int) is None,
        },
{
    let ghost all = mesh_skins_view(ms@);
    let mut found: Option<usize> = None;
    let mut i: usize = 0;
    while i < ms.len()
        invariant
            i <= ms@.len(),
            all == mesh_skins_view(ms@),
            match found {
                Some(k) => k < ms@.len() && mesh_skin_of(all, h, i as int) == Some(ms@[k as int]@),
                None => mesh_skin_of(all, h, i as int) is None,
            },
        decreases ms.len() - i,
    {
        assert(all[i as int] == ms@[i as int]@);
        if found.is_none() && ms[i].handle == h {
            found = Some(i);
        }
        i = i + 1;
    }
    found
}

fn vertex_pull(flags: &Vec<bool>, joints: &[u16; 4], weights: &[Scalar; 4]) -> (r: Scalar)
    ensures
        r == pull_of(flags@, *joints, *weights, 4),
{
    let mut best = Scalar { bits: BITS_ZERO };
    let mut k: usize = 0;
    while k < 4
        invariant
            k <= 4,
            best == pull_of(flags@, *joints, *weights, k as int),
        decreases 4 - k,
    {
        let j: usize = joints[k] as usize;
        assert(j == joints@[k as int]);
        if j < flags.len() && flags[j] {
            best = best.or_larger(&weights[k]);
        }
        k = k + 1;
    }
    best
}

fn heat(faces: &Vec<Face>, w: &Vec<Scalar>) -> (r: Vec<HeatFace>)
    requires
        forall|i: int| 0 <= i < faces@.len() ==> sound(#[trigger] faces@[i], w@.len()),
    ensures
        r@ == heated(faces@, w@),
{
    let eps = Scalar { bits: BITS_0_001 };
    let mut out: Vec<HeatFace> = Vec::new();
    let mut i: usize = 0;
    assert(faces@.take(0) =~= Seq::empty());
    while i < faces.len()
        invariant
            i <= faces@.len(),
            eps == (Scalar { bits: BITS_0_001 }),
            forall|i: int| 0 <= i < faces@.len() ==> sound(#[trigger] faces@[i], w@.len()),
            out@ == heated(faces@.take(i as int), w@),
        decreases faces.len() - i,
    {
        let ghost t = faces@.take(i as int + 1);
        assert(t.drop_last() =~= faces@.take(i as int));
        let f = faces[i];
        assert(t.last() == f && sound(faces@[i as int], w@.len()));
        let weight = w[f.a].or_larger(&w[f.b]).or_larger(&w[f.c]);
        if !weight.less(&eps) {
            out.push(HeatFace { face: f, weight });
        }
        i = i + 1;
    }
    assert(faces@.take(i as int) =~= faces@);
    out
}

fn needed(faces: &Vec<HeatFace>, n: usize) -> (r: Vec<bool>)
    requires
        forall|i: int| 0 <= i < faces@.len() ==> sound((#[trigger] faces@[i]).face, n as nat),
    ensures
        r@ == needed_of(faces@, n as nat),
{
    let mut out: Vec<bool> = Vec::new();
    let mut v: usize = 0;
    while v < n
        invariant
            v <= n,
            out@.len() == v,
            forall|i: int| 0 <= i < v ==> out@[i] == false,
        decreases n - v,
    {
        out.push(false);
        v = v + 1;
    }
    assert(out@ =~= needed_of(faces@.take(0), n as nat));
    let mut k: usize = 0;
    while k < faces.len()
        invariant
            k <= faces@.len(),
            out@.len() == n,
            forall|i: int| 0 <= i < faces@.len() ==> sound((#[trigger] faces@[i]).face, n as nat),
            out@ == needed_of(faces@.take(k as int), n as nat),
        decreases faces.len() - k,
    {
        let f = faces[k].face;
        assert(sound(faces@[k as int].face, n as nat));
        let ghost was = out@;
        let ghost t0 = faces@.take(k as int);
        let ghost t1 = faces@.take(k as int + 1);
        out.set(f.a, true);
        out.set(f.b, true);
        out.set(f.c, true);
        assert forall|i: int| 0 <= i < n implies out@[i] == needed_of(t1, n as nat)[i] by {
            if is_corner(f, i) {
                assert(is_corner(t1[k as int].face, i));
            } else {
                assert(out@[i] == was[i]);
                if was[i] {
                    let j = choose|j: int| 0 <= j < t0.len() && is_corner((#[trigger] t0[j]).face, i);
                    assert(is_corner(t1[j].face, i));
                }
                if exists|j: int| 0 <= j < t1.len() && is_corner((#[trigger] t1[j]).face, i) {
                    let j = choose|j: int| 0 <= j < t1.len() && is_corner((#[trigger] t1[j]).face, i);
                    assert(j < k);
                    assert(is_corner(t0[j].face, i));
                }
            }
        }
        assert(out@ =~= needed_of(t1, n as nat));
        k = k + 1;
    }
    assert(faces@.take(k as int) =~= faces@);
    out
}

fn overlay_mesh(part: SkinnedPart, flags: &Vec<bool>, m: &MeshSkin) -> (r: Option<OverlayPart>)
    ensures
        match r {
            Some(p) => mesh_overlay(part, flags@, m@) == Some(p@),
            None => mesh_overlay(part, flags@, m@) is None,
        },
{
    let joints = match &m.joints {
        Some(j) => j,
        None => {
            return None;
        },
    };
    let weights = match &m.weights {
        Some(w) => w,
        None => {
            return None;
        },
    };
    let mut n: usize = m.vertices;
    if joints.len() < n {
        n = joints.len();
    }
    if weights.len() < n {
        n = weights.len();
    }
    let mut w: Vec<Scalar> = Vec::new();
    let mut i: usize = 0;
    while i < n
        invariant
            i <= n,
            n <= joints@.len(),
            n <= weights@.len(),
            w@.len() == i,
            forall|v: int|
                0 <= v < i ==> #[trigger] w@[v] == pull_of(flags@, joints@[v], weights@[v], 4),
        decreases n - i,
    {
        let p = vertex_pull(flags, &joints[i], &weights[i]);
        w.push(p);
        i = i + 1;
    }
    assert(w@ =~= pulls_of(flags@, joints@, weights@, n as nat));
    let faces = sound_faces(&m.indices, n);
    let hot = heat(&faces, &w);
    if hot.len() == 0 {
        return None;
    }
    assert forall|j: int| 0 <= j < hot@.len() implies sound((#[trigger] hot@[j]).face, n as nat) by {
        law_heated(faces@, w@, j);
        let k = choose|k: int| 0 <= k < faces@.len() && faces@[k] == hot@[j].face;
        assert(sound(faces@[k], n as nat));
    }
    let needed = needed(&hot, n);
    Some(OverlayPart { part, faces: hot, needed })
}

impl RigDocument {
    fn joint_flags(&self, joints: &Vec<NodeHandle>) -> (r: (Vec<bool>, bool))
        ensures
            r.0@ == flags_of(self@, joints@),
            r.1 == r.0@.contains(true),
    {
        let mut flags: Vec<bool> = Vec::new();
        let mut any = false;
        let mut i: usize = 0;
        while i < joints.len()
            invariant
                i <= joints@.len(),
                flags@.len() == i,
                forall|j: int|
                    0 <= j < i ==> #[trigger] flags@[j] == self@.selected.contains(
                        BoneId { node: joints@[j] },
                    ),
                any <==> exists|j: int| 0 <= j < i && #[trigger] flags@[j] == true,
            decreases joints.len() - i,
        {
            let sel = self.is_selected(BoneId { node: joints[i] });
            let ghost was = flags@;
            let ghost any0 = any;
            flags.push(sel);
            if sel {
                any = true;
                assert(flags@[i as int] == true);
            }
            proof {
                if any0 {
                    let j = choose|j: int| 0 <= j < i && #[trigger] was[j] == true;
                    assert(flags@[j] == true);
                }
                if exists|j: int| 0 <= j < i + 1 && #[trigger] flags@[j] == true {
                    let j = choose|j: int| 0 <= j < i + 1 && #[trigger] flags@[j] == true;
                    if j < i {
                        assert(was[j] == true);
                    }
                }
            }
            i = i + 1;
        }
        assert(flags@ =~= flags_of(self@, joints@));
        assert(any <==> flags@.contains(true));
        (flags, any)
    }

    /// The triangles that the selected bones pull on, part by part.
    pub fn rebuild_weight_overlay(&self, scene: &Scene, ms: &Vec<MeshSkin>) -> (r: Vec<OverlayPart>)
        ensures
            overlay_parts_view(r@) == weight_overlay(self@, scene@, mesh_skins_view(ms@)),
    {
        let parts = scene.skinned_parts();
        let ghost all = mesh_skins_view(ms@);
        let mut out: Vec<OverlayPart> = Vec::new();
        assert(overlay_parts_view(out@) =~= Seq::empty());
        let mut i: usize = 0;
        while i < parts.len()
            invariant
                i <= parts@.len(),
                all == mesh_skins_view(ms@),
                overlay_parts_view(out@) == overlay_of(self@, scene@.skins, all, parts@, i as int),
            decreases parts.len() - i,
        {
            let shown = self.overlay_part(scene, ms, parts[i]);
            let ghost was = overlay_parts_view(out@);
            if let Some(p) = shown {
                let ghost pv = p@;
                out.push(p);
                assert(overlay_parts_view(out@) =~= was.push(pv));
            }
            i = i + 1;
        }
        out
    }

    fn overlay_part(&self, scene: &Scene, ms: &Vec<MeshSkin>, part: SkinnedPart) -> (r: Option<
        OverlayPart,
    >)
        ensures
            match r {
                Some(p) => part_overlay(self@, scene@.skins, mesh_skins_view(ms@), part) == Some(p@),
                None => part_overlay(self@, scene@.skins, mesh_skins_view(ms@), part) is None,
            },
    {
        let k = match scene.find_skin(part.skin) {
            Some(k) => k,
            None => {
                return None;
            },
        };
        let (flags, any) = self.joint_flags(&scene.skins[k].joints);
        if !any {
            return None;
        }
        match find_mesh_skin(ms, part.mesh) {
            Some(m) => overlay_mesh(part, &flags, &ms[m]),
            None => None,
        }
    }

    /// The overlay is shown.
    pub fn overlay_shown(&self) -> (r: bool)
        ensures
            r == overlay_visible(self@),
    {
        proof {
            if self.selected@.len() != 0 {
                assert(self.selected@.contains(self.selected@[0]));
                assert(self@.selected.contains(self.selected@[0]));
            }
        }
        self.show_weights && self.selected.len() != 0
    }

    /// The overlay is shown and has to be made anew first.
    pub fn overlay_stale(&self) -> (r: bool)
        ensures
            r == (overlay_visible(self@) && self@.overlay_dirty),
    {
        self.overlay_shown() && self.weight_overlay.dirty
    }

    /// Keeps the triangles of an overlay made anew.
    pub fn overlay_rebuilt(&mut self, tris: Vec<OverlayTri>)
        ensures
            final(self)@ == (RigView { overlay_tris: tris@, overlay_dirty: false, ..old(self)@ }),
    {
        self.weight_overlay.tris = tris;
        self.weight_overlay.dirty = false;
    }
}

/// The overlay is switched on and some bone is selected.
pub open spec fn overlay_visible(r: RigView) -> bool {
    r.show_weights && exists|id: BoneId| #[trigger] r.selected.contains(id)
}

} // verus!
