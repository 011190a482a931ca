//! Paths through the skeleton: how deep a branch goes, its deepest bone, and
//! the linear run of bones that a soft chain is made of.

use vstd::prelude::*;
use crate::bones::{
    ancestor, bone_at, bone_pos, depth_is, depth_of, forest, has_bone, kids_of, lemma_ancestor_add,
    lemma_ancestor_rank, lemma_depth_unique, lemma_reaches_down_bounded, lemma_reaches_through_kid,
    lemma_reaches_up_from_kid, parent_of, ranked, reaches_down, BoneId, BoneView,
};
use crate::lists::lemma_distinct_bounded;
use crate::rig::RigDocument;

verus! {

/// The longest soft chain.
pub const MAX_SOFT_BONES: usize = 32;

/// Below a bone there is a lowest generation.
proof fn lemma_depth_below(bs: Seq<BoneView>, id: BoneId, m: nat)
    requires
        m >= 1,
        reaches_down(bs, id, 0),
        forall|n: nat| n >= m ==> !#[trigger] reaches_down(bs, id, n),
    ensures
        exists|h: nat| depth_is(bs, id, h),
    decreases m,
{
    if reaches_down(bs, id, (m - 1) as nat) {
        assert(depth_is(bs, id, m));
    } else {
        assert(m - 1 >= 1);
        lemma_depth_below(bs, id, (m - 1) as nat);
    }
}

/// Every bone has a depth.
pub proof fn lemma_depth_exists(bs: Seq<BoneView>, id: BoneId)
    requires
        forest(bs),
        has_bone(bs, id),
    ensures
        depth_is(bs, id, depth_of(bs, id)),
{
    let (rank, bound) = choose|rank: spec_fn(BoneId) -> nat, bound: nat| ranked(bs, rank, bound);
    assert(ancestor(bs, id, 0) == Some(id));
    assert(reaches_down(bs, id, 0));
    assert forall|n: nat| n >= bound + 1 implies !#[trigger] reaches_down(bs, id, n) by {
        if reaches_down(bs, id, n) {
            lemma_reaches_down_bounded(bs, rank, bound, id, n);
        }
    }
    lemma_depth_below(bs, id, bound + 1);
}

/// A child's branch is at least one generation shallower.
pub proof fn lemma_kid_shallower(bs: Seq<BoneView>, id: BoneId, k: int)
    requires
        forest(bs),
        has_bone(bs, id),
        0 <= k < kids_of(bs, id).len(),
    ensures
        has_bone(bs, kids_of(bs, id)[k]),
        parent_of(bs, kids_of(bs, id)[k]) == Some(id),
        1 <= depth_of(bs, kids_of(bs, id)[k]) < depth_of(bs, id),
{
    let c = kids_of(bs, id)[k];
    assert(kids_of(bs, id).contains(c));
    lemma_depth_exists(bs, id);
    lemma_depth_exists(bs, c);
    let d = depth_of(bs, c);
    lemma_reaches_up_from_kid(bs, id, k, (d - 1) as nat);
    assert(reaches_down(bs, id, d));
}

/// A bone without children has depth one.
pub proof fn lemma_depth_leaf(bs: Seq<BoneView>, id: BoneId)
    requires
        forest(bs),
        has_bone(bs, id),
        kids_of(bs, id).len() == 0,
    ensures
        depth_of(bs, id) == 1,
{
    assert(ancestor(bs, id, 0) == Some(id));
    assert forall|n: nat| n >= 1 implies !#[trigger] reaches_down(bs, id, n) by {
        if reaches_down(bs, id, n) {
            lemma_reaches_through_kid(bs, id, (n - 1) as nat);
        }
    }
    assert(depth_is(bs, id, 1));
    lemma_depth_unique(bs, id, 1);
}

/// A bone is one generation deeper than its deepest child.
pub proof fn lemma_depth_step(bs: Seq<BoneView>, id: BoneId, k: int)
    requires
        forest(bs),
        has_bone(bs, id),
        0 <= k < kids_of(bs, id).len(),
        forall|j: int|
            0 <= j < kids_of(bs, id).len() ==> depth_of(bs, #[trigger] kids_of(bs, id)[j])
                <= depth_of(bs, kids_of(bs, id)[k]),
    ensures
        depth_of(bs, id) == depth_of(bs, kids_of(bs, id)[k]) + 1,
{
    let kids = kids_of(bs, id);
    let m = depth_of(bs, kids[k]);
    lemma_kid_shallower(bs, id, k);
    lemma_depth_exists(bs, kids[k]);
    lemma_reaches_up_from_kid(bs, id, k, (m - 1) as nat);
    assert forall|n: nat| n >= m + 1 implies !#[trigger] reaches_down(bs, id, n) by {
        if reaches_down(bs, id, n) {
            lemma_reaches_through_kid(bs, id, (n - 1) as nat);
            let j = choose|j: int|
                0 <= j < kids.len() && reaches_down(bs, #[trigger] kids[j], (n - 1) as nat);
            lemma_kid_shallower(bs, id, j);
            lemma_depth_exists(bs, kids[j]);
        }
    }
    assert(depth_is(bs, id, m + 1));
    lemma_depth_unique(bs, id, m + 1);
}

/// A bone `n` generations below another has `n` others above it, so `n` is less
/// than the number of bones.
pub proof fn lemma_ancestors_bounded(bs: Seq<BoneView>, x: BoneId, n: nat)
    requires
        forest(bs),
        ancestor(bs, x, n) is Some,
        has_bone(bs, ancestor(bs, x, n)->0),
    ensures
        n < bs.len(),
{
    let (rank, bound) = choose|rank: spec_fn(BoneId) -> nat, bound: nat| ranked(bs, rank, bound);
    let ids = Seq::new(bs.len(), |i: int| bs[i].id);
    let path = Seq::new((n + 1) as nat, |k: int| ancestor(bs, x, k as nat)->0);
    assert forall|k: int| 0 <= k <= n implies #[trigger] ancestor(bs, x, k as nat) is Some && has_bone(
        bs,
        ancestor(bs, x, k as nat)->0,
    ) by {
        lemma_ancestor_live(bs, x, k as nat, n);
    }
    assert forall|i: int, j: int| 0 <= i < j < path.len() implies path[i] != path[j] by {
        let a = ancestor(bs, x, i as nat)->0;
        assert(ancestor(bs, x, i as nat) == Some(a));
        lemma_ancestor_add(bs, x, a, i as nat, (j - i) as nat);
        assert(ancestor(bs, x, j as nat) is Some);
        lemma_ancestor_rank(bs, rank, bound, a, (j - i) as nat);
    }
    assert(path.no_duplicates());
    assert forall|y: BoneId| path.contains(y) implies ids.contains(y) by {
        let k = choose|k: int| 0 <= k < path.len() && path[k] == y;
        assert(ancestor(bs, x, k as nat) is Some);
        assert(bone_at(bs, y, bone_pos(bs, y)));
        assert(ids[bone_pos(bs, y)] == y);
    }
    lemma_distinct_bounded(path, ids);
}

/// Everything on the way up to a bone is a bone.
pub proof fn lemma_ancestor_live(bs: Seq<BoneView>, x: BoneId, k: nat, n: nat)
    requires
        k <= n,
        ancestor(bs, x, n) is Some,
        has_bone(bs, ancestor(bs, x, n)->0),
    ensures
        ancestor(bs, x, k) is Some,
        has_bone(bs, ancestor(bs, x, k)->0),
    decreases n,
{
    if k < n {
        assert(ancestor(bs, x, (n - 1) as nat) is Some);
        lemma_ancestor_live(bs, x, k, (n - 1) as nat);
    }
}

/// Child number `k` of `id` is the last one with the deepest branch.
pub open spec fn is_best(bs: Seq<BoneView>, id: BoneId, k: int) -> bool {
    let kids = kids_of(bs, id);
    &&& 0 <= k < kids.len()
    &&& forall|j: int| 0 <= j < kids.len() ==> depth_of(bs, #[trigger] kids[j]) <= depth_of(bs, kids[k])
    &&& forall|j: int| k < j < kids.len() ==> depth_of(bs, #[trigger] kids[j]) < depth_of(bs, kids[k])
}

/// From `id` down `n` times, always to the last child with the deepest branch.
pub open spec fn descend(bs: Seq<BoneView>, id: BoneId, n: nat) -> BoneId
    decreases n,
{
    if n == 0 {
        id
    } else {
        descend(bs, kids_of(bs, id)[choose|k: int| is_best(bs, id, k)], (n - 1) as nat)
    }
}

/// The deepest bone below `id`.
pub open spec fn deepest(bs: Seq<BoneView>, id: BoneId) -> BoneId {
    descend(bs, id, (depth_of(bs, id) - 1) as nat)
}

/// There is only one best child.
proof fn lemma_best_unique(bs: Seq<BoneView>, id: BoneId, k: int)
    requires
        is_best(bs, id, k),
    ensures
        (choose|j: int| is_best(bs, id, j)) == k,
{
    let j = choose|j: int| is_best(bs, id, j);
    assert(is_best(bs, id, j));
    let kids = kids_of(bs, id);
    if j < k {
        assert(depth_of(bs, kids[k]) < depth_of(bs, kids[j]));
    }
    if k < j {
        assert(depth_of(bs, kids[j]) < depth_of(bs, kids[k]));
    }
}

/// The deepest bone is as many generations below `id` as the branch is deep.
pub proof fn law_deepest(bs: Seq<BoneView>, id: BoneId)
    requires
        forest(bs),
        has_bone(bs, id),
    ensures
        has_bone(bs, deepest(bs, id)),
        ancestor(bs, deepest(bs, id), (depth_of(bs, id) - 1) as nat) == Some(id),
        kids_of(bs, deepest(bs, id)).len() == 0,
    decreases depth_of(bs, id),
{
    lemma_depth_exists(bs, id);
    let h = depth_of(bs, id);
    let kids = kids_of(bs, id);
    if kids.len() == 0 {
        lemma_depth_leaf(bs, id);
        assert(ancestor(bs, id, 0) == Some(id));
    } else {
        let k = lemma_best_exists(bs, id, kids.len());
        lemma_best_unique(bs, id, k);
        lemma_depth_step(bs, id, k);
        lemma_kid_shallower(bs, id, k);
        let c = kids[k];
        law_deepest(bs, c);
        let t = deepest(bs, c);
        assert(deepest(bs, id) == t);
        lemma_ancestor_add(bs, t, c, (h - 2) as nat, 1);
        assert(ancestor(bs, c, 0) == Some(c));
        assert(ancestor(bs, c, 1) == parent_of(bs, c));
        assert((h - 2) as nat + 1 == (h - 1) as nat);
    }
}

/// Among the first `n` children there is a best one.
proof fn lemma_best_exists(bs: Seq<BoneView>, id: BoneId, n: nat) -> (k: int)
    requires
        1 <= n <= kids_of(bs, id).len(),
    ensures
        0 <= k < n,
        forall|j: int|
            0 <= j < n ==> depth_of(bs, #[trigger] kids_of(bs, id)[j]) <= depth_of(
                bs,
                kids_of(bs, id)[k],
            ),
        forall|j: int|
            k < j < n ==> depth_of(bs, #[trigger] kids_of(bs, id)[j]) < depth_of(
                bs,
                kids_of(bs, id)[k],
            ),
        n == kids_of(bs, id).len() ==> is_best(bs, id, k),
    decreases n,
{
    let kids = kids_of(bs, id);
    if n == 1 {
        0
    } else {
        let k = lemma_best_exists(bs, id, (n - 1) as nat);
        if depth_of(bs, kids[n - 1]) >= depth_of(bs, kids[k]) {
            n - 1
        } else {
            k
        }
    }
}

/// Going up from the bone `k` generations above `tip`, a soft run ends: there is
/// no parent, or the parent has other children too, or the parent is a root.
pub open spec fn run_ends(bs: Seq<BoneView>, tip: BoneId, k: nat) -> bool {
    match ancestor(bs, tip, k + 1) {
        Some(p) => kids_of(bs, p).len() != 1 || parent_of(bs, p) is None,
        None => true,
    }
}

/// The run from `tip` that goes up at least `d` generations ends at generation `k`.
pub open spec fn run_stops_at(bs: Seq<BoneView>, tip: BoneId, d: nat, k: nat) -> bool {
    &&& d <= k
    &&& run_ends(bs, tip, k)
    &&& forall|j: nat| d <= j < k ==> !#[trigger] run_ends(bs, tip, j)
}

/// The bones from `k` generations above `tip` down to `tip`.
pub open spec fn path_down(bs: Seq<BoneView>, tip: BoneId, k: nat) -> Seq<BoneId> {
    Seq::new(k + 1, |i: int| ancestor(bs, tip, (k - i) as nat)->0)
}

/// The anchor and the bones of the soft chain through `selected`: from the
/// deepest bone below it up to the first bone, from `selected` on, whose parent
/// branches or is a root. A chain that is too long is refused, and so is one
/// through a root, which has no anchor.
pub open spec fn soft_run(bs: Seq<BoneView>, selected: BoneId) -> Result<
    (BoneId, Seq<BoneId>),
    Seq<char>,
> {
    let tip = deepest(bs, selected);
    let d = (depth_of(bs, selected) - 1) as nat;
    if !has_bone(bs, selected) {
        Err("Invalid bone"@)
    } else if exists|k: nat| k < MAX_SOFT_BONES && #[trigger] run_stops_at(bs, tip, d, k) {
        let k = choose|k: nat| k < MAX_SOFT_BONES && #[trigger] run_stops_at(bs, tip, d, k);
        match ancestor(bs, tip, k + 1) {
            Some(anchor) => Ok((anchor, path_down(bs, tip, k))),
            None => Err("Soft chain needs a parent anchor"@),
        }
    } else {
        Err("Soft chain too long"@)
    }
}

/// A bone with a parent has an anchor: its chain is refused for its length alone.
pub proof fn law_soft_anchor(bs: Seq<BoneView>, selected: BoneId)
    requires
        forest(bs),
        has_bone(bs, selected),
        parent_of(bs, selected) is Some,
    ensures
        match soft_run(bs, selected) {
            Ok((anchor, run)) => run.len() >= 1 && parent_of(bs, run[0]) == Some(anchor)
                && run.contains(selected),
            Err(e) => e == "Soft chain too long"@,
        },
{
    let tip = deepest(bs, selected);
    let d = (depth_of(bs, selected) - 1) as nat;
    lemma_depth_exists(bs, selected);
    law_deepest(bs, selected);
    if exists|k: nat| k < MAX_SOFT_BONES && #[trigger] run_stops_at(bs, tip, d, k) {
        let k = choose|k: nat| k < MAX_SOFT_BONES && #[trigger] run_stops_at(bs, tip, d, k);
        if k > d {
            assert(!run_ends(bs, tip, (k - 1) as nat));
        }
        assert(ancestor(bs, tip, k) is Some);
        assert(ancestor(bs, tip, k + 1) is Some);
        assert(path_down(bs, tip, k)[k - d] == selected);
    }
}

/// A run stops at one place only.
proof fn lemma_stop_unique(bs: Seq<BoneView>, tip: BoneId, d: nat, k: nat)
    requires
        k < MAX_SOFT_BONES,
        run_stops_at(bs, tip, d, k),
    ensures
        (choose|j: nat| j < MAX_SOFT_BONES && #[trigger] run_stops_at(bs, tip, d, j)) == k,
{
    let j = choose|j: nat| j < MAX_SOFT_BONES && #[trigger] run_stops_at(bs, tip, d, j);
    if j < k {
        assert(!run_ends(bs, tip, j));
    }
    if k < j {
        assert(!run_ends(bs, tip, k));
    }
}

impl RigDocument {
    /// How many generations the branch at `id` has.
    pub fn chain_depth(&self, id: BoneId) -> (r: usize)
        requires
            self.wf(),
            has_bone(self@.bones, id),
        ensures
            r == depth_of(self@.bones, id),
        decreases depth_of(self@.bones, id),
    {
        let ghost bs = self@.bones;
        let b = self.bone(id).unwrap();
        let ghost kids = kids_of(bs, id);
        assert(kids == b.children@);
        if b.children.len() == 0 {
            proof {
                lemma_depth_leaf(bs, id);
            }
            return 1;
        }
        let mut best: usize = 0;
        let ghost mut at: int = 0;
        let mut i: usize = 0;
        while i < b.children.len()
            invariant
                i <= b.children@.len(),
                self.wf(),
                bs == self@.bones,
                has_bone(bs, id),
                kids == kids_of(bs, id),
                kids == b.children@,
                i > 0 ==> 0 <= at < i && best == depth_of(bs, kids[at]),
                i == 0 ==> best == 0,
                forall|j: int| 0 <= j < i ==> depth_of(bs, #[trigger] kids[j]) <= best,
            decreases b.children.len() - i,
        {
            proof {
                lemma_kid_shallower(bs, id, i as int);
            }
            let d = self.chain_depth(b.children[i]);
            if d >= best {
                best = d;
                proof {
                    at = i as int;
                }
            }
            i = i + 1;
        }
        proof {
            lemma_depth_step(bs, id, at);
            lemma_depth_exists(bs, id);
            let h = depth_of(bs, id);
            let x = choose|x: BoneId| #[trigger] ancestor(bs, x, (h - 1) as nat) == Some(id);
            lemma_ancestors_bounded(bs, x, (h - 1) as nat);
            assert(bs.len() == self.bones@.len());
            assert(self.bones@.len() == self.bones.len());
        }
        1 + best
    }

    /// The deepest bone below `id`; of equally deep branches, the last child's.
    pub fn deepest_descendant(&self, id: BoneId) -> (r: BoneId)
        requires
            self.wf(),
            has_bone(self@.bones, id),
        ensures
            r == deepest(self@.bones, id),
        decreases depth_of(self@.bones, id),
    {
        let ghost bs = self@.bones;
        let b = self.bone(id).unwrap();
        let ghost kids = kids_of(bs, id);
        assert(kids == b.children@);
        if b.children.len() == 0 {
            proof {
                lemma_depth_leaf(bs, id);
            }
            return id;
        }
        let mut best: usize = 0;
        let mut at: usize = 0;
        let mut i: usize = 0;
        while i < b.children.len()
            invariant
                i <= b.children@.len(),
                self.wf(),
                bs == self@.bones,
                has_bone(bs, id),
                kids == kids_of(bs, id),
                kids == b.children@,
                i > 0 ==> at < i && best == depth_of(bs, kids[at as int]),
                i == 0 ==> best == 0,
                forall|j: int| 0 <= j < i ==> depth_of(bs, #[trigger] kids[j]) <= best,
                i > 0 ==> forall|j: int| at < j < i ==> depth_of(bs, #[trigger] kids[j]) < best,
            decreases b.children.len() - i,
        {
            proof {
                lemma_kid_shallower(bs, id, i as int);
            }
            let d = self.chain_depth(b.children[i]);
            if d >= best {
                best = d;
                at = i;
            }
            i = i + 1;
        }
        proof {
            assert(is_best(bs, id, at as int));
            lemma_best_unique(bs, id, at as int);
            lemma_depth_step(bs, id, at as int);
            lemma_kid_shallower(bs, id, at as int);
        }
        self.deepest_descendant(b.children[at])
    }

    /// Soft chain = deepest path under `selected`, walking up to (but not including)
    /// the first multi-child / root parent — that parent is the fixed anchor.
    pub fn collect_linear_soft_chain(&self, selected: BoneId) -> (r: Result<
        (BoneId, Vec<BoneId>),
        &'static str,
    >)
        requires
            self.wf(),
        ensures
            match (r, soft_run(self@.bones, selected)) {
                (Ok(a), Ok(b)) => a.0 == b.0 && a.1@ == b.1,
                (Err(e), Err(f)) => e@ == f,
                _ => false,
            },
    {
        if self.bone(selected).is_none() {
            return Err("Invalid bone");
        }
        let ghost bs = self@.bones;
        let tip = self.deepest_descendant(selected);
        let ghost d = (depth_of(bs, selected) - 1) as nat;
        proof {
            lemma_depth_exists(bs, selected);
            law_deepest(bs, selected);
        }
        // Bones from the tip upwards; the k-th is k generations above the tip.
        let mut up: Vec<BoneId> = Vec::new();
        up.push(tip);
        let mut cur = tip;
        let ghost mut k: nat = 0;
        assert(ancestor(bs, tip, 0) == Some(tip));
        while cur != selected
            invariant
                self.wf(),
                bs == self@.bones,
                tip == deepest(bs, selected),
                d == depth_of(bs, selected) - 1,
                ancestor(bs, tip, d) == Some(selected),
                has_bone(bs, selected),
                has_bone(bs, tip),
                k <= d,
                k < MAX_SOFT_BONES,
                up@.len() == k + 1,
                ancestor(bs, tip, k) == Some(cur),
                forall|i: int| 0 <= i < up@.len() ==> Some(#[trigger] up@[i]) == ancestor(bs, tip, i as nat),
            decreases d - k,
        {
            proof {
                lemma_ancestor_live(bs, tip, k, d);
                lemma_ancestor_live(bs, tip, k + 1, d);
            }
            let p = self.bone(cur).unwrap().parent.unwrap();
            assert(ancestor(bs, tip, k + 1) == Some(p));
            up.push(p);
            cur = p;
            proof {
                k = k + 1;
            }
            if up.len() > MAX_SOFT_BONES {
                proof {
                    assert(d >= MAX_SOFT_BONES);
                    assert forall|j: nat| j < MAX_SOFT_BONES implies !#[trigger] run_stops_at(
                        bs,
                        tip,
                        d,
                        j,
                    ) by {}
                }
                return Err("Soft chain too long");
            }
        }
        proof {
            if k != d {
                lemma_ancestor_once(bs, tip, selected, k, d);
            }
        }
        loop
            invariant
                self.wf(),
                bs == self@.bones,
                tip == deepest(bs, selected),
                d == depth_of(bs, selected) - 1,
                has_bone(bs, selected),
                d <= k < MAX_SOFT_BONES,
                up@.len() == k + 1,
                ancestor(bs, tip, k) == Some(cur),
                forall|i: int| 0 <= i < up@.len() ==> Some(#[trigger] up@[i]) == ancestor(bs, tip, i as nat),
                forall|j: nat| d <= j < k ==> !#[trigger] run_ends(bs, tip, j),
            decreases MAX_SOFT_BONES - k,
        {
            let parent = match self.bone(cur) {
                Some(b) => b.parent,
                None => None,
            };
            assert(ancestor(bs, tip, k + 1) == parent);
            let p = match parent {
                Some(p) => p,
                None => {
                    proof {
                        assert(run_ends(bs, tip, k));
                        assert(run_stops_at(bs, tip, d, k));
                        lemma_stop_unique(bs, tip, d, k);
                    }
                    return Err("Soft chain needs a parent anchor");
                },
            };
            let ends = match self.bone(p) {
                Some(b) => b.children.len() != 1 || b.parent.is_none(),
                None => true,
            };
            assert(ends == (kids_of(bs, p).len() != 1 || parent_of(bs, p) is None));
            if ends {
                proof {
                    assert(run_ends(bs, tip, k));
                    assert(run_stops_at(bs, tip, d, k));
                    lemma_stop_unique(bs, tip, d, k);
                }
                let bones = reversed(&up);
                proof {
                    assert(bones@ =~= path_down(bs, tip, k)) by {
                        assert forall|i: int| 0 <= i < bones@.len() implies bones@[i] == path_down(
                            bs,
                            tip,
                            k,
                        )[i] by {
                            assert(bones@[i] == up@[k - i]);
                        }
                    }
                }
                return Ok((p, bones));
            }
            assert(!run_ends(bs, tip, k));
            up.push(p);
            cur = p;
            proof {
                k = k + 1;
            }
            if up.len() > MAX_SOFT_BONES {
                proof {
                    assert forall|j: nat| j < MAX_SOFT_BONES implies !#[trigger] run_stops_at(
                        bs,
                        tip,
                        d,
                        j,
                    ) by {
                        if run_stops_at(bs, tip, d, j) {
                            assert(!run_ends(bs, tip, j));
                        }
                    }
                }
                return Err("Soft chain too long");
            }
        }
    }
}

/// A bone is an ancestor of another at one distance only.
proof fn lemma_ancestor_once(bs: Seq<BoneView>, x: BoneId, a: BoneId, i: nat, j: nat)
    requires
        forest(bs),
        has_bone(bs, a),
        ancestor(bs, x, i) == Some(a),
        ancestor(bs, x, j) == Some(a),
    ensures
        i == j,
{
    let (rank, bound) = choose|rank: spec_fn(BoneId) -> nat, bound: nat| ranked(bs, rank, bound);
    if i < j {
        lemma_ancestor_add(bs, x, a, i, (j - i) as nat);
        lemma_ancestor_rank(bs, rank, bound, a, (j - i) as nat);
    }
    if j < i {
        lemma_ancestor_add(bs, x, a, j, (i - j) as nat);
        lemma_ancestor_rank(bs, rank, bound, a, (i - j) as nat);
    }
}

/// The list from back to front.
pub(crate) fn reversed(v: &Vec<BoneId>) -> (r: Vec<BoneId>)
    ensures
        r@.len() == v@.len(),
        forall|i: int| 0 <= i < r@.len() ==> #[trigger] r@[i] == v@[v@.len() - 1 - i],
{
    let mut r: Vec<BoneId> = Vec::new();
    let mut i: usize = v.len();
    while i > 0
        invariant
            i <= v@.len(),
            r@.len() == v@.len() - i,
            forall|j: int| 0 <= j < r@.len() ==> #[trigger] r@[j] == v@[v@.len() - 1 - j],
        decreases i,
    {
        i = i - 1;
        r.push(v[i]);
    }
    r
}

} // verus!
