//! Edits of the bone forest, and why it stays a forest: adding a bone, cutting
//! bones off with what hangs on their child lists, and taking one bone out.

use vstd::prelude::*;
use crate::bones::{
    acyclic, ancestor, bone_at, bone_pos, distinct, forest, has_bone, kids_of, lemma_ancestor_shift,
    lemma_not_under_self, lemma_pos, linked, parent_of, ranked, strictly_under, under, BoneId,
    BoneView,
};
use crate::lists::{kept_at, lemma_filter_contains, lemma_filter_no_duplicates, lemma_kept};

verus! {

/// A new leaf.
pub open spec fn leaf(id: BoneId, name: Seq<char>, parent: Option<BoneId>, deform: bool) -> BoneView {
    BoneView { id, name, parent, children: Seq::empty(), deform }
}

/// `b`, with `id` as one more child where `b` is `parent`.
pub open spec fn adopt(b: BoneView, parent: Option<BoneId>, id: BoneId) -> BoneView {
    if parent == Some(b.id) {
        BoneView { children: b.children.push(id), ..b }
    } else {
        b
    }
}

/// The bones `bs` and one more at the end, listed under its parent.
pub open spec fn with_bone(bs: Seq<BoneView>, b: BoneView) -> Seq<BoneView> {
    Seq::new(bs.len(), |i: int| adopt(bs[i], b.parent, b.id)).push(b)
}

/// `id` is neither a bone nor the parent of one.
pub open spec fn unused(bs: Seq<BoneView>, id: BoneId) -> bool {
    &&& !has_bone(bs, id)
    &&& forall|i: int| 0 <= i < bs.len() ==> (#[trigger] bs[i]).parent != Some(id)
}

/// The children of `b` outside `dead`.
pub open spec fn live_kids(kids: Seq<BoneId>, dead: Set<BoneId>) -> Seq<BoneId> {
    kids.filter(|c: BoneId| !dead.contains(c))
}

pub open spec fn prune_bone(b: BoneView, dead: Set<BoneId>) -> BoneView {
    BoneView { children: live_kids(b.children, dead), ..b }
}

/// The bones outside `dead`, without children in `dead`.
pub open spec fn pruned(bs: Seq<BoneView>, dead: Set<BoneId>) -> Seq<BoneView> {
    bs.filter(|b: BoneView| !dead.contains(b.id)).map_values(|b: BoneView| prune_bone(b, dead))
}

/// `b` once the bone `id` is gone: no longer its child, no longer its parent.
pub open spec fn bereft(b: BoneView, id: BoneId) -> BoneView {
    BoneView {
        parent: if b.parent == Some(id) {
            None
        } else {
            b.parent
        },
        children: live_kids(b.children, Set::empty().insert(id)),
        ..b
    }
}

/// The bones without `id`; its children become roots.
pub open spec fn plucked(bs: Seq<BoneView>, id: BoneId) -> Seq<BoneView> {
    bs.filter(|b: BoneView| b.id != id).map_values(|b: BoneView| bereft(b, id))
}

/// How the bones look after adding one.
pub proof fn lemma_with_bone(bs: Seq<BoneView>, b: BoneView)
    requires
        forest(bs),
        unused(bs, b.id),
        b.parent != Some(b.id),
        b.children.len() == 0,
    ensures
        forest(with_bone(bs, b)),
        forall|x: BoneId|
            #[trigger] has_bone(with_bone(bs, b), x) <==> has_bone(bs, x) || x == b.id,
        forall|x: BoneId|
            has_bone(bs, x) ==> bone_pos(with_bone(bs, b), x) == #[trigger] bone_pos(bs, x),
        bone_pos(with_bone(bs, b), b.id) == bs.len(),
        forall|x: BoneId|
            #[trigger] parent_of(with_bone(bs, b), x) == (if x == b.id {
                b.parent
            } else {
                parent_of(bs, x)
            }),
{
    let ns = with_bone(bs, b);
    assert forall|i: int, j: int| 0 <= i < j < ns.len() implies ns[i].id != ns[j].id by {
        if j == bs.len() {
            assert(bone_at(bs, bs[i].id, i));
        }
    }
    assert(distinct(ns));
    assert forall|x: BoneId| #[trigger] has_bone(ns, x) <==> has_bone(bs, x) || x == b.id by {
        if has_bone(ns, x) {
            let i = bone_pos(ns, x);
            assert(bone_at(ns, x, i));
            if i < bs.len() {
                assert(bone_at(bs, x, i));
            }
        }
        if has_bone(bs, x) {
            let i = bone_pos(bs, x);
            assert(bone_at(bs, x, i));
            assert(bone_at(ns, x, i));
        }
        if x == b.id {
            assert(bone_at(ns, x, bs.len() as int));
        }
    }
    assert forall|x: BoneId| has_bone(bs, x) implies bone_pos(ns, x) == #[trigger] bone_pos(
        bs,
        x,
    ) by {
        assert(bone_at(bs, x, bone_pos(bs, x)));
        lemma_pos(ns, x, bone_pos(bs, x));
    }
    lemma_pos(ns, b.id, bs.len() as int);
    assert forall|x: BoneId| #[trigger] parent_of(ns, x) == (if x == b.id {
        b.parent
    } else {
        parent_of(bs, x)
    }) by {
        if has_bone(bs, x) {
            assert(bone_at(bs, x, bone_pos(bs, x)));
        }
        assert(has_bone(ns, x) <==> has_bone(bs, x) || x == b.id);
    }
    assert forall|x: BoneId, c: BoneId| has_bone(ns, x) implies (#[trigger] kids_of(ns, x).contains(
        c,
    ) <==> (has_bone(ns, c) && parent_of(ns, c) == Some(x))) by {
        if x == b.id {
            assert(kids_of(ns, x) == b.children);
            if has_bone(ns, c) && parent_of(ns, c) == Some(x) {
                assert(c != b.id);
                assert(has_bone(bs, c));
                let k = bone_pos(bs, c);
                assert(bone_at(bs, c, k));
                assert(bs[k].parent == Some(x));
            }
        } else {
            assert(has_bone(bs, x));
            let i = bone_pos(bs, x);
            assert(bone_at(bs, x, i));
            assert(kids_of(ns, x) == adopt(bs[i], b.parent, b.id).children);
            assert(kids_of(bs, x).contains(c) <==> (has_bone(bs, c) && parent_of(bs, c) == Some(x)));
            if b.parent == Some(x) {
                let k = kids_of(bs, x);
                assert(k.push(b.id).contains(c) <==> k.contains(c) || c == b.id) by {
                    if k.contains(c) {
                        let m = choose|m: int| 0 <= m < k.len() && k[m] == c;
                        assert(k.push(b.id)[m] == c);
                    }
                    if c == b.id {
                        assert(k.push(b.id)[k.len() as int] == c);
                    }
                    if k.push(b.id).contains(c) {
                        let m = choose|m: int| 0 <= m < k.push(b.id).len() && k.push(b.id)[m] == c;
                        if m < k.len() {
                            assert(k[m] == c);
                        }
                    }
                }
            }
        }
    }
    assert forall|i: int| 0 <= i < ns.len() implies (#[trigger] ns[i]).children.no_duplicates() by {
        if i < bs.len() && b.parent == Some(bs[i].id) {
            assert(bone_at(bs, bs[i].id, i));
            lemma_pos(bs, bs[i].id, i);
            let k = bs[i].children;
            assert(!k.contains(b.id)) by {
                if kids_of(bs, bs[i].id).contains(b.id) {
                    assert(has_bone(bs, b.id));
                }
            }
            assert forall|u: int, w: int|
                0 <= u < ns[i].children.len() && 0 <= w < ns[i].children.len() && u != w implies ns[i].children[u]
                != ns[i].children[w] by {
                if u == k.len() {
                    assert(k.contains(k[w]));
                } else if w == k.len() {
                    assert(k.contains(k[u]));
                }
            }
        }
    }
    assert(linked(ns));
    let (rank, bound) = choose|rank: spec_fn(BoneId) -> nat, bound: nat| ranked(bs, rank, bound);
    let r0 = match b.parent {
        Some(p) => if has_bone(bs, p) {
            rank(p) + 1
        } else {
            0
        },
        None => 0nat,
    };
    let rank2 = |x: BoneId|
        if x == b.id {
            r0
        } else {
            rank(x)
        };
    assert(ranked(ns, rank2, bound + 1)) by {
        assert forall|i: int| 0 <= i < ns.len() implies {
            &&& rank2((#[trigger] ns[i]).id) < bound + 1
            &&& ns[i].parent matches Some(p) ==> has_bone(ns, p) ==> rank2(p) < rank2(ns[i].id)
        } by {
            if i < bs.len() {
                assert(bone_at(bs, bs[i].id, i));
                assert(rank(bs[i].id) < bound);
                if ns[i].parent is Some && has_bone(ns, ns[i].parent->0) {
                    let p = ns[i].parent->0;
                    assert(has_bone(ns, p));
                    assert(bs[i].parent == Some(p));
                    assert(has_bone(bs, p));
                }
            } else if b.parent is Some {
                let p = b.parent->0;
                if has_bone(bs, p) {
                    let k = bone_pos(bs, p);
                    assert(bone_at(bs, p, k));
                    assert(rank(bs[k].id) < bound);
                }
                assert(has_bone(ns, p) <==> has_bone(bs, p) || p == b.id);
            }
        }
    }
    assert(acyclic(ns));
}

/// How the bones look after cutting some off.
pub proof fn lemma_pruned(bs: Seq<BoneView>, dead: Set<BoneId>)
    requires
        forest(bs),
    ensures
        forest(pruned(bs, dead)),
        forall|x: BoneId|
            #[trigger] has_bone(pruned(bs, dead), x) <==> has_bone(bs, x) && !dead.contains(x),
        forall|x: BoneId|
            has_bone(pruned(bs, dead), x) ==> #[trigger] parent_of(pruned(bs, dead), x)
                == parent_of(bs, x),
        forall|x: BoneId|
            has_bone(pruned(bs, dead), x) ==> #[trigger] kids_of(pruned(bs, dead), x) == live_kids(
                kids_of(bs, x),
                dead,
            ),
{
    let p = |b: BoneView| !dead.contains(b.id);
    let f = bs.filter(p);
    let ns = pruned(bs, dead);
    lemma_kept(bs, p);
    assert(ns.len() == f.len());
    assert forall|i: int| 0 <= i < ns.len() implies #[trigger] ns[i] == prune_bone(
        bs[kept_at(bs, p, i)],
        dead,
    ) && 0 <= kept_at(bs, p, i) < bs.len() && !dead.contains(ns[i].id) by {
        assert(p(f[i]));
    }
    assert forall|i: int, j: int| 0 <= i < j < ns.len() implies ns[i].id != ns[j].id by {
        assert(kept_at(bs, p, i) < kept_at(bs, p, j));
        assert(ns[i].id == bs[kept_at(bs, p, i)].id);
        assert(ns[j].id == bs[kept_at(bs, p, j)].id);
    }
    assert(distinct(ns));
    assert forall|x: BoneId| #[trigger] has_bone(ns, x) <==> has_bone(bs, x) && !dead.contains(
        x,
    ) by {
        if has_bone(ns, x) {
            let i = bone_pos(ns, x);
            assert(bone_at(ns, x, i));
            assert(ns[i].id == bs[kept_at(bs, p, i)].id);
            assert(bone_at(bs, x, kept_at(bs, p, i)));
        }
        if has_bone(bs, x) && !dead.contains(x) {
            let i = bone_pos(bs, x);
            assert(bone_at(bs, x, i));
            lemma_filter_contains(bs, p, bs[i]);
            assert(bs.contains(bs[i]));
            let j = choose|j: int| 0 <= j < f.len() && f[j] == bs[i];
            assert(bone_at(ns, x, j));
        }
    }
    assert forall|x: BoneId| has_bone(ns, x) implies #[trigger] parent_of(ns, x) == parent_of(bs, x)
        && kids_of(ns, x) == live_kids(kids_of(bs, x), dead) by {
        let i = bone_pos(ns, x);
        assert(bone_at(ns, x, i));
        assert(ns[i] == prune_bone(bs[kept_at(bs, p, i)], dead));
        lemma_pos(bs, x, kept_at(bs, p, i));
    }
    assert forall|x: BoneId| has_bone(ns, x) implies #[trigger] kids_of(ns, x) == live_kids(
        kids_of(bs, x),
        dead,
    ) by {
        assert(parent_of(ns, x) == parent_of(bs, x));
    }
    assert forall|x: BoneId, c: BoneId| has_bone(ns, x) implies (#[trigger] kids_of(ns, x).contains(
        c,
    ) <==> (has_bone(ns, c) && parent_of(ns, c) == Some(x))) by {
        assert(kids_of(ns, x) == live_kids(kids_of(bs, x), dead));
        lemma_filter_contains(kids_of(bs, x), |c: BoneId| !dead.contains(c), c);
        assert(has_bone(bs, x));
        assert(kids_of(bs, x).contains(c) <==> (has_bone(bs, c) && parent_of(bs, c) == Some(x)));
        assert(has_bone(ns, c) <==> has_bone(bs, c) && !dead.contains(c));
        if has_bone(ns, c) {
            assert(parent_of(ns, c) == parent_of(bs, c));
        }
    }
    assert forall|i: int| 0 <= i < ns.len() implies (#[trigger] ns[i]).children.no_duplicates() by {
        let b = bs[kept_at(bs, p, i)];
        assert(ns[i] == prune_bone(b, dead));
        lemma_filter_no_duplicates(b.children, |c: BoneId| !dead.contains(c));
    }
    assert(linked(ns));
    let (rank, bound) = choose|rank: spec_fn(BoneId) -> nat, bound: nat| ranked(bs, rank, bound);
    assert(ranked(ns, rank, bound)) by {
        assert forall|i: int| 0 <= i < ns.len() implies {
            &&& rank((#[trigger] ns[i]).id) < bound
            &&& ns[i].parent matches Some(q) ==> has_bone(ns, q) ==> rank(q) < rank(ns[i].id)
        } by {
            let k = kept_at(bs, p, i);
            assert(ns[i] == prune_bone(bs[k], dead));
            assert(rank(bs[k].id) < bound);
            if ns[i].parent is Some {
                assert(has_bone(ns, ns[i].parent->0) ==> has_bone(bs, ns[i].parent->0));
            }
        }
    }
    assert(acyclic(ns));
}

/// How the bones look after taking one out.
pub proof fn lemma_plucked(bs: Seq<BoneView>, id: BoneId)
    requires
        forest(bs),
    ensures
        forest(plucked(bs, id)),
        forall|x: BoneId| #[trigger] has_bone(plucked(bs, id), x) <==> has_bone(bs, x) && x != id,
{
    let p = |b: BoneView| b.id != id;
    let gone = Set::<BoneId>::empty().insert(id);
    let f = bs.filter(p);
    let ns = plucked(bs, id);
    lemma_kept(bs, p);
    assert forall|i: int| 0 <= i < ns.len() implies #[trigger] ns[i] == bereft(
        bs[kept_at(bs, p, i)],
        id,
    ) && 0 <= kept_at(bs, p, i) < bs.len() && ns[i].id != id by {
        assert(p(f[i]));
    }
    assert forall|i: int, j: int| 0 <= i < j < ns.len() implies ns[i].id != ns[j].id by {
        assert(kept_at(bs, p, i) < kept_at(bs, p, j));
        assert(ns[i].id == bs[kept_at(bs, p, i)].id);
        assert(ns[j].id == bs[kept_at(bs, p, j)].id);
    }
    assert(distinct(ns));
    assert forall|x: BoneId| #[trigger] has_bone(ns, x) <==> has_bone(bs, x) && x != id by {
        if has_bone(ns, x) {
            let i = bone_pos(ns, x);
            assert(bone_at(ns, x, i));
            assert(ns[i].id == bs[kept_at(bs, p, i)].id);
            assert(bone_at(bs, x, kept_at(bs, p, i)));
        }
        if has_bone(bs, x) && x != id {
            let i = bone_pos(bs, x);
            assert(bone_at(bs, x, i));
            lemma_filter_contains(bs, p, bs[i]);
            assert(bs.contains(bs[i]));
            let j = choose|j: int| 0 <= j < f.len() && f[j] == bs[i];
            assert(bone_at(ns, x, j));
        }
    }
    assert forall|x: BoneId| has_bone(ns, x) implies #[trigger] parent_of(ns, x) == (if parent_of(
        bs,
        x,
    ) == Some(id) {
        None
    } else {
        parent_of(bs, x)
    }) && kids_of(ns, x) == live_kids(kids_of(bs, x), gone) by {
        let i = bone_pos(ns, x);
        assert(bone_at(ns, x, i));
        assert(ns[i] == bereft(bs[kept_at(bs, p, i)], id));
        lemma_pos(bs, x, kept_at(bs, p, i));
    }
    assert forall|x: BoneId, c: BoneId| has_bone(ns, x) implies (#[trigger] kids_of(ns, x).contains(
        c,
    ) <==> (has_bone(ns, c) && parent_of(ns, c) == Some(x))) by {
        assert(parent_of(ns, x) == parent_of(ns, x));
        assert(kids_of(ns, x) == live_kids(kids_of(bs, x), gone));
        lemma_filter_contains(kids_of(bs, x), |c: BoneId| !gone.contains(c), c);
        assert(has_bone(bs, x) && x != id);
        assert(kids_of(bs, x).contains(c) <==> (has_bone(bs, c) && parent_of(bs, c) == Some(x)));
        assert(has_bone(ns, c) <==> has_bone(bs, c) && c != id);
        if has_bone(ns, c) {
            assert(parent_of(ns, c) == (if parent_of(bs, c) == Some(id) {
                None
            } else {
                parent_of(bs, c)
            }));
        }
    }
    assert forall|i: int| 0 <= i < ns.len() implies (#[trigger] ns[i]).children.no_duplicates() by {
        let b = bs[kept_at(bs, p, i)];
        assert(ns[i] == bereft(b, id));
        lemma_filter_no_duplicates(b.children, |c: BoneId| !gone.contains(c));
    }
    assert(linked(ns));
    let (rank, bound) = choose|rank: spec_fn(BoneId) -> nat, bound: nat| ranked(bs, rank, bound);
    assert(ranked(ns, rank, bound)) by {
        assert forall|i: int| 0 <= i < ns.len() implies {
            &&& rank((#[trigger] ns[i]).id) < bound
            &&& ns[i].parent matches Some(q) ==> has_bone(ns, q) ==> rank(q) < rank(ns[i].id)
        } by {
            let k = kept_at(bs, p, i);
            assert(ns[i] == bereft(bs[k], id));
            assert(rank(bs[k].id) < bound);
            if ns[i].parent is Some {
                assert(has_bone(ns, ns[i].parent->0) ==> has_bone(bs, ns[i].parent->0));
            }
        }
    }
    assert(acyclic(ns));
}

/// What contains `id` and, with a bone, its children, contains all that is
/// under `id`.
pub proof fn lemma_closed_under(bs: Seq<BoneView>, id: BoneId, set: Set<BoneId>, x: BoneId, n: nat)
    requires
        forest(bs),
        has_bone(bs, id),
        set.contains(id),
        forall|b: BoneId, c: BoneId|
            set.contains(b) && #[trigger] kids_of(bs, b).contains(c) ==> set.contains(c),
        forall|b: BoneId| #[trigger] set.contains(b) ==> has_bone(bs, b),
        ancestor(bs, x, n) == Some(id),
    ensures
        set.contains(x),
    decreases n,
{
    if n > 0 {
        lemma_ancestor_shift(bs, x, (n - 1) as nat);
        let p = parent_of(bs, x)->0;
        assert(parent_of(bs, x) is Some);
        lemma_closed_under(bs, id, set, p, (n - 1) as nat);
        assert(has_bone(bs, p));
        assert(kids_of(bs, p).contains(x));
    }
}

/// A child of what is under `id` is under `id`, and never `id` itself.
pub proof fn lemma_kid_under(bs: Seq<BoneView>, id: BoneId, b: BoneId, c: BoneId)
    requires
        forest(bs),
        has_bone(bs, id),
        under(bs, id, b),
        has_bone(bs, b),
        kids_of(bs, b).contains(c),
    ensures
        under(bs, id, c),
        c != id,
        has_bone(bs, c),
        parent_of(bs, c) == Some(b),
{
    let n = choose|n: nat| #[trigger] ancestor(bs, b, n) == Some(id);
    assert(parent_of(bs, c) == Some(b));
    lemma_ancestor_shift(bs, c, n);
    assert(ancestor(bs, c, n + 1) == Some(id));
    if c == id {
        assert(strictly_under(bs, id, id));
        lemma_not_under_self(bs, id);
    }
}

} // verus!
