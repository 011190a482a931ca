//! The bone hierarchy as a mathematical forest: who is a bone, who is whose
//! parent, who lies below whom, and how deep a branch goes.

use vstd::prelude::*;
use crate::scene::NodeHandle;

verus! {

/// A bone is named by the scene node that carries it.
#[derive(Clone, Copy, Debug, PartialEq, Eq, Structural, Hash)]
pub struct BoneId {
    pub node: NodeHandle,
}

pub struct BoneInfo {
    pub id: BoneId,
    pub name: String,
    pub parent: Option<BoneId>,
    pub children: Vec<BoneId>,
    /// Joint participates in skin deformation.
    pub deform: bool,
}

/// What a bone holds.
#[verifier::ext_equal]
pub struct BoneView {
    pub id: BoneId,
    pub name: Seq<char>,
    pub parent: Option<BoneId>,
    pub children: Seq<BoneId>,
    pub deform: bool,
}

impl View for BoneInfo {
    type V = BoneView;

    open spec fn view(&self) -> BoneView {
        BoneView {
            id: self.id,
            name: self.name@,
            parent: self.parent,
            children: self.children@,
            deform: self.deform,
        }
    }
}

/// The list of bones as a mathematical value.
pub open spec fn bones_view(bs: Seq<BoneInfo>) -> Seq<BoneView> {
    Seq::new(bs.len(), |i: int| bs[i]@)
}

pub open spec fn bone_at(bs: Seq<BoneView>, id: BoneId, i: int) -> bool {
    0 <= i < bs.len() && bs[i].id == id
}

/// `id` names a bone of the list.
pub open spec fn has_bone(bs: Seq<BoneView>, id: BoneId) -> bool {
    exists|i: int| bone_at(bs, id, i)
}

/// The place of bone `id` in the list.
pub open spec fn bone_pos(bs: Seq<BoneView>, id: BoneId) -> int {
    choose|i: int| bone_at(bs, id, i)
}

/// The recorded parent of `id`; nothing for an id that is no bone.
pub open spec fn parent_of(bs: Seq<BoneView>, id: BoneId) -> Option<BoneId> {
    if has_bone(bs, id) {
        bs[bone_pos(bs, id)].parent
    } else {
        None
    }
}

/// The children of `id`, in order; nothing for an id that is no bone.
pub open spec fn kids_of(bs: Seq<BoneView>, id: BoneId) -> Seq<BoneId> {
    if has_bone(bs, id) {
        bs[bone_pos(bs, id)].children
    } else {
        Seq::empty()
    }
}

/// No bone is listed twice.
pub open spec fn distinct(bs: Seq<BoneView>) -> bool {
    forall|i: int, j: int| 0 <= i < j < bs.len() ==> bs[i].id != bs[j].id
}

/// Child lists and parent fields tell the same story: `c` is listed under the
/// bone `b` exactly when `c` is a bone whose parent is `b`, and only once.
pub open spec fn linked(bs: Seq<BoneView>) -> bool {
    &&& forall|i: int| 0 <= i < bs.len() ==> (#[trigger] bs[i]).children.no_duplicates()
    &&& forall|b: BoneId, c: BoneId|
        has_bone(bs, b) ==> (#[trigger] kids_of(bs, b).contains(c) <==> (has_bone(bs, c)
            && parent_of(bs, c) == Some(b)))
}

/// `rank` grows from every bone to its children and stays below `bound`.
pub open spec fn ranked(bs: Seq<BoneView>, rank: spec_fn(BoneId) -> nat, bound: nat) -> bool {
    forall|i: int|
        0 <= i < bs.len() ==> {
            &&& rank((#[trigger] bs[i]).id) < bound
            &&& bs[i].parent matches Some(p) ==> has_bone(bs, p) ==> rank(p) < rank(bs[i].id)
        }
}

/// Nobody is an ancestor of themselves.
pub open spec fn acyclic(bs: Seq<BoneView>) -> bool {
    exists|rank: spec_fn(BoneId) -> nat, bound: nat| ranked(bs, rank, bound)
}

/// The list is a forest.
pub open spec fn forest(bs: Seq<BoneView>) -> bool {
    &&& distinct(bs)
    &&& linked(bs)
    &&& acyclic(bs)
}

/// Going up `n` times from `id`: `id` itself for 0, then its parent, and so on
/// for as long as the one reached is a bone.
pub open spec fn ancestor(bs: Seq<BoneView>, id: BoneId, n: nat) -> Option<BoneId>
    decreases n,
{
    if n == 0 {
        Some(id)
    } else {
        match ancestor(bs, id, (n - 1) as nat) {
            Some(a) => parent_of(bs, a),
            None => None,
        }
    }
}

/// `top` is reached from `id` by going up zero or more times.
pub open spec fn under(bs: Seq<BoneView>, top: BoneId, id: BoneId) -> bool {
    exists|n: nat| #[trigger] ancestor(bs, id, n) == Some(top)
}

/// `top` is reached from `id` by going up at least once.
pub open spec fn strictly_under(bs: Seq<BoneView>, top: BoneId, id: BoneId) -> bool {
    exists|n: nat| n >= 1 && #[trigger] ancestor(bs, id, n) == Some(top)
}

/// Some bone lies exactly `n` generations below `id`.
pub open spec fn reaches_down(bs: Seq<BoneView>, id: BoneId, n: nat) -> bool {
    exists|x: BoneId| #[trigger] ancestor(bs, x, n) == Some(id)
}

/// `h` counts the generations from `id` down to the lowest bone below it.
pub open spec fn depth_is(bs: Seq<BoneView>, id: BoneId, h: nat) -> bool {
    &&& h >= 1
    &&& reaches_down(bs, id, (h - 1) as nat)
    &&& forall|n: nat| n >= h ==> !#[trigger] reaches_down(bs, id, n)
}

pub open spec fn depth_of(bs: Seq<BoneView>, id: BoneId) -> nat {
    choose|h: nat| depth_is(bs, id, h)
}

pub proof fn lemma_pos(bs: Seq<BoneView>, id: BoneId, i: int)
    requires
        distinct(bs),
        bone_at(bs, id, i),
    ensures
        has_bone(bs, id),
        bone_pos(bs, id) == i,
        parent_of(bs, id) == bs[i].parent,
        kids_of(bs, id) == bs[i].children,
{
}

/// Going up `n` and then once more from a child is going up from its parent.
pub proof fn lemma_ancestor_shift(bs: Seq<BoneView>, id: BoneId, n: nat)
    ensures
        ancestor(bs, id, n + 1) == (match parent_of(bs, id) {
            Some(p) => ancestor(bs, p, n),
            None => None,
        }),
    decreases n,
{
    if n == 0 {
        assert(ancestor(bs, id, 0) == Some(id));
        assert(ancestor(bs, id, 1) == parent_of(bs, id));
        match parent_of(bs, id) {
            Some(p) => {
                assert(ancestor(bs, p, 0) == Some(p));
            },
            None => {},
        }
    } else {
        lemma_ancestor_shift(bs, id, (n - 1) as nat);
    }
}

/// Going up `a` times and then `b` times is going up `a + b` times.
pub proof fn lemma_ancestor_add(bs: Seq<BoneView>, id: BoneId, mid: BoneId, a: nat, b: nat)
    requires
        ancestor(bs, id, a) == Some(mid),
    ensures
        ancestor(bs, id, a + b) == ancestor(bs, mid, b),
    decreases b,
{
    if b > 0 {
        lemma_ancestor_add(bs, id, mid, a, (b - 1) as nat);
    }
}

/// Whoever is reached from below is a bone's ancestor chain all the way: every
/// step but the last passes through a bone, so ranks fall strictly.
pub proof fn lemma_ancestor_rank(
    bs: Seq<BoneView>,
    rank: spec_fn(BoneId) -> nat,
    bound: nat,
    id: BoneId,
    n: nat,
)
    requires
        distinct(bs),
        ranked(bs, rank, bound),
        ancestor(bs, id, n) is Some,
        has_bone(bs, ancestor(bs, id, n)->0),
    ensures
        has_bone(bs, id),
        rank(ancestor(bs, id, n)->0) + n <= rank(id),
        rank(id) < bound,
    decreases n,
{
    if n == 0 {
        let i = bone_pos(bs, id);
        assert(bone_at(bs, id, i));
    } else {
        let m = ancestor(bs, id, (n - 1) as nat)->0;
        assert(ancestor(bs, id, (n - 1) as nat) is Some);
        assert(has_bone(bs, m));
        lemma_ancestor_rank(bs, rank, bound, id, (n - 1) as nat);
        let i = bone_pos(bs, m);
        assert(bone_at(bs, m, i));
        assert(bs[i].parent == ancestor(bs, id, n));
    }
}

/// A bone is never strictly under itself.
pub proof fn lemma_not_under_self(bs: Seq<BoneView>, id: BoneId)
    requires
        forest(bs),
        has_bone(bs, id),
    ensures
        !strictly_under(bs, id, id),
{
    let (rank, bound) = choose|rank: spec_fn(BoneId) -> nat, bound: nat| ranked(bs, rank, bound);
    if strictly_under(bs, id, id) {
        let n = choose|n: nat| n >= 1 && #[trigger] ancestor(bs, id, n) == Some(id);
        lemma_ancestor_rank(bs, rank, bound, id, n);
    }
}

/// Only bones lie below a bone, and no further down than the forest is deep.
pub proof fn lemma_reaches_down_bounded(
    bs: Seq<BoneView>,
    rank: spec_fn(BoneId) -> nat,
    bound: nat,
    id: BoneId,
    n: nat,
)
    requires
        distinct(bs),
        ranked(bs, rank, bound),
        has_bone(bs, id),
        reaches_down(bs, id, n),
    ensures
        n < bound,
{
    let x = choose|x: BoneId| #[trigger] ancestor(bs, x, n) == Some(id);
    lemma_ancestor_rank(bs, rank, bound, x, n);
}

/// A branch has one depth.
pub proof fn lemma_depth_unique(bs: Seq<BoneView>, id: BoneId, h: nat)
    requires
        depth_is(bs, id, h),
    ensures
        depth_of(bs, id) == h,
{
    let g = depth_of(bs, id);
    assert(depth_is(bs, id, g));
    if g < h {
        assert(!reaches_down(bs, id, (h - 1) as nat));
    }
    if h < g {
        assert(!reaches_down(bs, id, (g - 1) as nat));
    }
}

/// Something `n + 1` generations below `id` is `n` generations below one of
/// the children of `id`.
pub proof fn lemma_reaches_through_kid(bs: Seq<BoneView>, id: BoneId, n: nat)
    requires
        forest(bs),
        has_bone(bs, id),
        reaches_down(bs, id, n + 1),
    ensures
        exists|k: int| 0 <= k < kids_of(bs, id).len() && reaches_down(bs, #[trigger] kids_of(bs, id)[k], n),
{
    let x = choose|x: BoneId| #[trigger] ancestor(bs, x, n + 1) == Some(id);
    let c = ancestor(bs, x, n)->0;
    assert(ancestor(bs, x, n) == Some(c));
    assert(parent_of(bs, c) == Some(id));
    assert(kids_of(bs, id).contains(c));
    let k = choose|k: int| 0 <= k < kids_of(bs, id).len() && kids_of(bs, id)[k] == c;
    assert(reaches_down(bs, kids_of(bs, id)[k], n));
}

/// What lies `n` generations below a child lies `n + 1` below the parent.
pub proof fn lemma_reaches_up_from_kid(bs: Seq<BoneView>, id: BoneId, k: int, n: nat)
    requires
        forest(bs),
        has_bone(bs, id),
        0 <= k < kids_of(bs, id).len(),
        reaches_down(bs, kids_of(bs, id)[k], n),
    ensures
        reaches_down(bs, id, n + 1),
{
    let c = kids_of(bs, id)[k];
    assert(kids_of(bs, id).contains(c));
    let x = choose|x: BoneId| #[trigger] ancestor(bs, x, n) == Some(c);
    assert(ancestor(bs, x, n + 1) == Some(id));
}

} // verus!
