//! The skeleton as a tree of lines: who is shown under whom, in what order, and
//! under what name the lines go.

use vstd::prelude::*;
use crate::bones::{
    ancestor, bone_at, bone_pos, forest, has_bone, kids_of, lemma_ancestor_add, lemma_ancestor_rank,
    lemma_ancestor_shift, parent_of, ranked, under, BoneId, BoneView,
};
use crate::rig::RigDocument;
use crate::rig_paths::lemma_ancestors_bounded;
use crate::text::{decimal, decimal_of, join, lemma_decimal_digits, lemma_decimal_injective, same_text};

verus! {

/// Under what name the line of bone `id` goes.
pub open spec fn tree_id(id: BoneId) -> Seq<char> {
    "bone_"@ + decimal_of(id.node.index as nat) + "_"@ + decimal_of(id.node.generation as nat)
}

/// Under what name the line of bone `id` goes.
pub fn bone_tree_id(id: BoneId) -> (r: String)
    ensures
        r@ == tree_id(id),
{
    let a = join("bone_", &decimal(id.node.index as u64));
    join(&join(&a, "_"), &decimal(id.node.generation as u64))
}

/// Two digit strings, each followed by an underscore and more, agree only if
/// the digits do.
proof fn lemma_split(a: Seq<char>, b: Seq<char>, x: Seq<char>, y: Seq<char>)
    requires
        forall|i: int| 0 <= i < a.len() ==> #[trigger] a[i] != '_',
        forall|i: int| 0 <= i < b.len() ==> #[trigger] b[i] != '_',
        a + "_"@ + x == b + "_"@ + y,
    ensures
        a == b,
        x == y,
{
    reveal_strlit("_");
    let u = a + "_"@ + x;
    let v = b + "_"@ + y;
    assert("_"@.len() == 1 && "_"@[0] == '_');
    assert(u[a.len() as int] == '_');
    assert(v[b.len() as int] == '_');
    if a.len() < b.len() {
        assert(v[a.len() as int] == b[a.len() as int]);
    }
    if b.len() < a.len() {
        assert(u[b.len() as int] == a[b.len() as int]);
    }
    assert forall|i: int| 0 <= i < a.len() implies a[i] == b[i] by {
        assert(u[i] == a[i] && v[i] == b[i]);
    }
    assert(a =~= b);
    assert(u.len() == a.len() + 1 + x.len());
    assert(v.len() == b.len() + 1 + y.len());
    assert(x.len() == y.len());
    assert forall|i: int| 0 <= i < x.len() implies x[i] == y[i] by {
        assert(u[a.len() + 1 + i] == x[i] && v[b.len() + 1 + i] == y[i]);
    }
    assert(x =~= y);
}

/// No two bones share a line name.
pub proof fn law_tree_id_injective(a: BoneId, b: BoneId)
    requires
        tree_id(a) == tree_id(b),
    ensures
        a == b,
{
    let p = "bone_"@;
    let da = decimal_of(a.node.index as nat);
    let db = decimal_of(b.node.index as nat);
    let ga = decimal_of(a.node.generation as nat);
    let gb = decimal_of(b.node.generation as nat);
    let u = tree_id(a);
    let v = tree_id(b);
    assert(u.skip(p.len() as int) =~= da + "_"@ + ga);
    assert(v.skip(p.len() as int) =~= db + "_"@ + gb);
    lemma_decimal_digits(a.node.index as nat);
    lemma_decimal_digits(b.node.index as nat);
    lemma_split(da, db, ga, gb);
    lemma_decimal_injective(a.node.index as nat, b.node.index as nat);
    lemma_decimal_injective(a.node.generation as nat, b.node.generation as nat);
}

/// One line of the tree.
pub struct TreeRow {
    pub id: BoneId,
    pub name: String,
    /// How far it is indented.
    pub depth: usize,
    /// Nothing hangs under it.
    pub leaf: bool,
}

/// The line after line `at` and all that are indented deeper below it.
pub fn branch_end(rows: &Vec<TreeRow>, at: usize) -> (r: usize)
    requires
        at < rows@.len(),
    ensures
        at < r <= rows@.len(),
        forall|j: int| at < j < r ==> (#[trigger] rows@[j]).depth > rows@[at as int].depth,
        r < rows@.len() ==> rows@[r as int].depth <= rows@[at as int].depth,
{
    let n = rows.len();
    let mut r: usize = at + 1;
    while r < n && rows[r].depth > rows[at].depth
        invariant
            n == rows@.len(),
            at < r <= rows@.len(),
            forall|j: int| at < j < r ==> (#[trigger] rows@[j]).depth > rows@[at as int].depth,
        decreases n - r,
    {
        r = r + 1;
    }
    r
}

/// What a line holds.
#[verifier::ext_equal]
pub struct TreeRowView {
    pub id: BoneId,
    pub name: Seq<char>,
    pub depth: nat,
    pub leaf: bool,
}

impl View for TreeRow {
    type V = TreeRowView;

    open spec fn view(&self) -> TreeRowView {
        TreeRowView { id: self.id, name: self.name@, depth: self.depth as nat, leaf: self.leaf }
    }
}

pub open spec fn tree_view(s: Seq<TreeRow>) -> Seq<TreeRowView> {
    Seq::new(s.len(), |i: int| s[i]@)
}

/// The line of bone `b`.
pub open spec fn tree_row(b: BoneView, depth: nat) -> TreeRowView {
    TreeRowView { id: b.id, name: b.name, depth, leaf: b.children.len() == 0 }
}

/// The line of `id` and below it those of its branch, down to `fuel`
/// generations.
pub open spec fn branch_rows(bs: Seq<BoneView>, id: BoneId, depth: nat, fuel: nat) -> Seq<
    TreeRowView,
>
    decreases fuel, 0nat,
{
    if fuel == 0 || !has_bone(bs, id) {
        Seq::empty()
    } else {
        seq![tree_row(bs[bone_pos(bs, id)], depth)] + kids_rows(
            bs,
            kids_of(bs, id),
            depth + 1,
            (fuel - 1) as nat,
        )
    }
}

/// The branches of `kids`, one after the other.
pub open spec fn kids_rows(bs: Seq<BoneView>, kids: Seq<BoneId>, depth: nat, fuel: nat) -> Seq<
    TreeRowView,
>
    decreases fuel, kids.len() + 1,
{
    if kids.len() == 0 {
        Seq::empty()
    } else {
        kids_rows(bs, kids.drop_last(), depth, fuel) + branch_rows(bs, kids.last(), depth, fuel)
    }
}

/// The bones without parent, in order.
pub open spec fn root_ids(bs: Seq<BoneView>) -> Seq<BoneId> {
    bs.filter(|b: BoneView| b.parent is None).map_values(|b: BoneView| b.id)
}

/// All lines of the tree.
pub open spec fn tree_rows(bs: Seq<BoneView>) -> Seq<TreeRowView> {
    kids_rows(bs, root_ids(bs), 0, bs.len())
}

/// A line shows bone `x`.
pub open spec fn shows_bone(rows: Seq<TreeRowView>, x: BoneId) -> bool {
    exists|i: int| 0 <= i < rows.len() && (#[trigger] rows[i]).id == x
}

proof fn lemma_shows_add(a: Seq<TreeRowView>, b: Seq<TreeRowView>, x: BoneId)
    ensures
        shows_bone(a + b, x) <==> shows_bone(a, x) || shows_bone(b, x),
{
    let s = a + b;
    if shows_bone(a, x) {
        let i = choose|i: int| 0 <= i < a.len() && (#[trigger] a[i]).id == x;
        assert(s[i].id == x);
    }
    if shows_bone(b, x) {
        let i = choose|i: int| 0 <= i < b.len() && (#[trigger] b[i]).id == x;
        assert(s[a.len() + i].id == x);
    }
    if shows_bone(s, x) {
        let i = choose|i: int| 0 <= i < s.len() && (#[trigger] s[i]).id == x;
        if i < a.len() {
            assert(a[i].id == x);
        } else {
            assert(b[i - a.len()].id == x);
        }
    }
}

/// One of the branches of `kids` shows `x` exactly where they all do together.
proof fn lemma_kids_show(bs: Seq<BoneView>, kids: Seq<BoneId>, depth: nat, fuel: nat, x: BoneId)
    ensures
        shows_bone(kids_rows(bs, kids, depth, fuel), x) <==> exists|k: int|
            0 <= k < kids.len() && shows_bone(#[trigger] branch_rows(bs, kids[k], depth, fuel), x),
    decreases kids.len(),
{
    if kids.len() > 0 {
        let short = kids.drop_last();
        lemma_kids_show(bs, short, depth, fuel, x);
        lemma_shows_add(
            kids_rows(bs, short, depth, fuel),
            branch_rows(bs, kids.last(), depth, fuel),
            x,
        );
        assert(kids[kids.len() - 1] == kids.last());
        if exists|k: int|
            0 <= k < kids.len() && shows_bone(#[trigger] branch_rows(bs, kids[k], depth, fuel), x) {
            let k = choose|k: int|
                0 <= k < kids.len() && shows_bone(
                    #[trigger] branch_rows(bs, kids[k], depth, fuel),
                    x,
                );
            if k < short.len() {
                assert(short[k] == kids[k]);
                assert(shows_bone(branch_rows(bs, short[k], depth, fuel), x));
            }
        }
        if exists|k: int|
            0 <= k < short.len() && shows_bone(
                #[trigger] branch_rows(bs, short[k], depth, fuel),
                x,
            ) {
            let k = choose|k: int|
                0 <= k < short.len() && shows_bone(
                    #[trigger] branch_rows(bs, short[k], depth, fuel),
                    x,
                );
            assert(short[k] == kids[k]);
            assert(shows_bone(branch_rows(bs, kids[k], depth, fuel), x));
        }
    }
}

/// The branch of `top` shows exactly the bones that lie under it by fewer than
/// `fuel` generations.
proof fn lemma_branch_shows(bs: Seq<BoneView>, top: BoneId, depth: nat, fuel: nat, x: BoneId)
    requires
        forest(bs),
    ensures
        shows_bone(branch_rows(bs, top, depth, fuel), x) <==> has_bone(bs, top) && exists|n: nat|
            n < fuel && #[trigger] ancestor(bs, x, n) == Some(top),
    decreases fuel,
{
    if fuel > 0 && has_bone(bs, top) {
        let i = bone_pos(bs, top);
        assert(bone_at(bs, top, i));
        let kids = kids_of(bs, top);
        let head = seq![tree_row(bs[i], depth)];
        let tail = kids_rows(bs, kids, depth + 1, (fuel - 1) as nat);
        lemma_shows_add(head, tail, x);
        lemma_kids_show(bs, kids, depth + 1, (fuel - 1) as nat, x);
        assert(head[0].id == top);
        assert(shows_bone(head, x) <==> x == top);
        if shows_bone(tail, x) {
            let k = choose|k: int|
                0 <= k < kids.len() && shows_bone(
                    #[trigger] branch_rows(bs, kids[k], depth + 1, (fuel - 1) as nat),
                    x,
                );
            lemma_branch_shows(bs, kids[k], depth + 1, (fuel - 1) as nat, x);
            let n = choose|n: nat| n < fuel - 1 && #[trigger] ancestor(bs, x, n) == Some(kids[k]);
            assert(kids.contains(kids[k]));
            assert(ancestor(bs, x, n + 1) == Some(top));
        }
        if exists|n: nat| n < fuel && #[trigger] ancestor(bs, x, n) == Some(top) {
            let n = choose|n: nat| n < fuel && #[trigger] ancestor(bs, x, n) == Some(top);
            if n == 0 {
                assert(x == top);
            } else {
                let m = (n - 1) as nat;
                let c = ancestor(bs, x, m)->0;
                assert(ancestor(bs, x, m) == Some(c));
                assert(parent_of(bs, c) == Some(top));
                assert(kids.contains(c));
                let k = choose|k: int| 0 <= k < kids.len() && kids[k] == c;
                lemma_branch_shows(bs, kids[k], depth + 1, (fuel - 1) as nat, x);
                assert(shows_bone(branch_rows(bs, kids[k], depth + 1, (fuel - 1) as nat), x));
            }
        }
        if x == top {
            assert(ancestor(bs, x, 0) == Some(top));
        }
    } else if fuel == 0 {
    }
}

/// A root is one of the roots.
proof fn lemma_root_listed(bs: Seq<BoneView>, top: BoneId)
    requires
        forest(bs),
    ensures
        root_ids(bs).contains(top) <==> has_bone(bs, top) && parent_of(bs, top) is None,
{
    let p = |b: BoneView| b.parent is None;
    let q = |b: BoneView| b.id;
    let f = bs.filter(p);
    let r = root_ids(bs);
    assert(r =~= f.map_values(q));
    if has_bone(bs, top) && parent_of(bs, top) is None {
        let i = bone_pos(bs, top);
        assert(bone_at(bs, top, i));
        crate::lists::lemma_filter_contains(bs, p, bs[i]);
        assert(bs.contains(bs[i]));
        assert(f.contains(bs[i]));
        let k = choose|k: int| 0 <= k < f.len() && f[k] == bs[i];
        assert(r[k] == top);
    }
    if r.contains(top) {
        let k = choose|k: int| 0 <= k < r.len() && r[k] == top;
        let b = f[k];
        assert(f.contains(b));
        crate::lists::lemma_filter_contains(bs, p, b);
        let i = choose|i: int| 0 <= i < bs.len() && bs[i] == b;
        assert(bone_at(bs, top, i));
        crate::bones::lemma_pos(bs, top, i);
    }
}

/// The tree shows exactly the bones that hang, at whatever depth, under a bone
/// without parent.
pub proof fn law_tree_complete(bs: Seq<BoneView>, x: BoneId)
    requires
        forest(bs),
    ensures
        shows_bone(tree_rows(bs), x) <==> exists|top: BoneId|
            has_bone(bs, top) && parent_of(bs, top) is None && #[trigger] under(bs, top, x),
{
    let roots = root_ids(bs);
    lemma_kids_show(bs, roots, 0, bs.len(), x);
    if shows_bone(tree_rows(bs), x) {
        let k = choose|k: int|
            0 <= k < roots.len() && shows_bone(
                #[trigger] branch_rows(bs, roots[k], 0, bs.len()),
                x,
            );
        lemma_branch_shows(bs, roots[k], 0, bs.len(), x);
        assert(roots.contains(roots[k]));
        lemma_root_listed(bs, roots[k]);
        let n = choose|n: nat| n < bs.len() && #[trigger] ancestor(bs, x, n) == Some(roots[k]);
        assert(under(bs, roots[k], x));
    }
    if exists|top: BoneId|
        has_bone(bs, top) && parent_of(bs, top) is None && #[trigger] under(bs, top, x) {
        let top = choose|top: BoneId|
            has_bone(bs, top) && parent_of(bs, top) is None && #[trigger] under(bs, top, x);
        lemma_root_listed(bs, top);
        let k = choose|k: int| 0 <= k < roots.len() && roots[k] == top;
        let n = choose|n: nat| #[trigger] ancestor(bs, x, n) == Some(top);
        lemma_ancestors_bounded(bs, x, n);
        lemma_branch_shows(bs, roots[k], 0, bs.len(), x);
        assert(shows_bone(branch_rows(bs, roots[k], 0, bs.len()), x));
    }
}

/// No two lines show one bone.
pub open spec fn rows_distinct(rows: Seq<TreeRowView>) -> bool {
    forall|i: int, j: int|
        0 <= i < j < rows.len() ==> (#[trigger] rows[i]).id != (#[trigger] rows[j]).id
}

proof fn lemma_distinct_add(a: Seq<TreeRowView>, b: Seq<TreeRowView>)
    requires
        rows_distinct(a),
        rows_distinct(b),
        forall|x: BoneId| !(#[trigger] shows_bone(a, x) && shows_bone(b, x)),
    ensures
        rows_distinct(a + b),
{
    let s = a + b;
    assert forall|i: int, j: int| 0 <= i < j < s.len() implies (#[trigger] s[i]).id != (
    #[trigger] s[j]).id by {
        if j < a.len() {
            assert(a[i].id != a[j].id);
        } else if i >= a.len() {
            assert(b[i - a.len()].id != b[j - a.len()].id);
        } else if s[i].id == s[j].id {
            assert(a[i].id == s[i].id);
            assert(b[j - a.len()].id == s[i].id);
            assert(shows_bone(a, s[i].id));
            assert(shows_bone(b, s[i].id));
        }
    }
}

/// Siblings share no descendant.
proof fn lemma_siblings_apart(bs: Seq<BoneView>, a: BoneId, b: BoneId, x: BoneId, n: nat, m: nat)
    requires
        forest(bs),
        has_bone(bs, a),
        has_bone(bs, b),
        parent_of(bs, a) == parent_of(bs, b),
        ancestor(bs, x, n) == Some(a),
        ancestor(bs, x, m) == Some(b),
        n <= m,
    ensures
        a == b,
{
    if n < m {
        let d = (m - n) as nat;
        let e = (d - 1) as nat;
        lemma_ancestor_add(bs, x, a, n, d);
        assert(n + d == m);
        assert(ancestor(bs, a, d) == Some(b));
        lemma_ancestor_shift(bs, a, e);
        assert(e + 1 == d);
        let p = parent_of(bs, a)->0;
        assert(ancestor(bs, p, e) == Some(b));
        let (rank, bound) = choose|rank: spec_fn(BoneId) -> nat, bound: nat|
            ranked(bs, rank, bound);
        lemma_ancestor_rank(bs, rank, bound, p, e);
        assert(ancestor(bs, b, 0) == Some(b));
        assert(ancestor(bs, b, 1) == Some(p));
        lemma_ancestor_rank(bs, rank, bound, b, 1);
    }
}

/// The branches of siblings show no bone twice.
proof fn lemma_kids_distinct(bs: Seq<BoneView>, kids: Seq<BoneId>, parent: Option<BoneId>, depth: nat, fuel: nat)
    requires
        forest(bs),
        kids.no_duplicates(),
        forall|k: int|
            0 <= k < kids.len() ==> has_bone(bs, #[trigger] kids[k]) && parent_of(bs, kids[k])
                == parent,
    ensures
        rows_distinct(kids_rows(bs, kids, depth, fuel)),
    decreases fuel, kids.len() + 1,
{
    if kids.len() > 0 {
        let short = kids.drop_last();
        let last = kids.last();
        let a = kids_rows(bs, short, depth, fuel);
        let b = branch_rows(bs, last, depth, fuel);
        assert forall|k: int| 0 <= k < short.len() implies has_bone(bs, #[trigger] short[k])
            && parent_of(bs, short[k]) == parent by {
            assert(short[k] == kids[k]);
        }
        lemma_kids_distinct(bs, short, parent, depth, fuel);
        assert(kids[kids.len() - 1] == last);
        lemma_branch_distinct(bs, last, depth, fuel);
        assert forall|x: BoneId| !(#[trigger] shows_bone(a, x) && shows_bone(b, x)) by {
            if shows_bone(a, x) && shows_bone(b, x) {
                lemma_kids_show(bs, short, depth, fuel, x);
                let k = choose|k: int|
                    0 <= k < short.len() && shows_bone(
                        #[trigger] branch_rows(bs, short[k], depth, fuel),
                        x,
                    );
                lemma_branch_shows(bs, short[k], depth, fuel, x);
                lemma_branch_shows(bs, last, depth, fuel, x);
                let n = choose|n: nat| n < fuel && #[trigger] ancestor(bs, x, n) == Some(short[k]);
                let m = choose|m: nat| m < fuel && #[trigger] ancestor(bs, x, m) == Some(last);
                assert(short[k] == kids[k]);
                assert(kids[k] != kids[kids.len() - 1]);
                if n <= m {
                    lemma_siblings_apart(bs, short[k], last, x, n, m);
                } else {
                    lemma_siblings_apart(bs, last, short[k], x, m, n);
                }
            }
        }
        lemma_distinct_add(a, b);
    }
}

/// A branch shows no bone twice.
proof fn lemma_branch_distinct(bs: Seq<BoneView>, top: BoneId, depth: nat, fuel: nat)
    requires
        forest(bs),
    ensures
        rows_distinct(branch_rows(bs, top, depth, fuel)),
    decreases fuel, 0nat,
{
    if fuel > 0 && has_bone(bs, top) {
        let i = bone_pos(bs, top);
        assert(bone_at(bs, top, i));
        let kids = kids_of(bs, top);
        let f = (fuel - 1) as nat;
        let head = seq![tree_row(bs[i], depth)];
        let tail = kids_rows(bs, kids, depth + 1, f);
        assert(bs[i].children.no_duplicates());
        assert forall|k: int| 0 <= k < kids.len() implies has_bone(bs, #[trigger] kids[k])
            && parent_of(bs, kids[k]) == Some(top) by {
            assert(kids.contains(kids[k]));
        }
        lemma_kids_distinct(bs, kids, Some(top), depth + 1, f);
        assert forall|x: BoneId| !(#[trigger] shows_bone(head, x) && shows_bone(tail, x)) by {
            if shows_bone(head, x) && shows_bone(tail, x) {
                assert(x == top);
                lemma_kids_show(bs, kids, depth + 1, f, x);
                let k = choose|k: int|
                    0 <= k < kids.len() && shows_bone(
                        #[trigger] branch_rows(bs, kids[k], depth + 1, f),
                        x,
                    );
                lemma_branch_shows(bs, kids[k], depth + 1, f, x);
                let n = choose|n: nat| n < f && #[trigger] ancestor(bs, x, n) == Some(kids[k]);
                assert(ancestor(bs, top, n + 1) == Some(top));
                crate::bones::lemma_not_under_self(bs, top);
                assert(crate::bones::strictly_under(bs, top, top));
            }
        }
        lemma_distinct_add(head, tail);
    }
}

/// The tree shows no bone twice.
pub proof fn law_tree_distinct(bs: Seq<BoneView>)
    requires
        forest(bs),
    ensures
        rows_distinct(tree_rows(bs)),
{
    let roots = root_ids(bs);
    let p = |b: BoneView| b.parent is None;
    let q = |b: BoneView| b.id;
    assert forall|k: int| 0 <= k < roots.len() implies has_bone(bs, #[trigger] roots[k])
        && parent_of(bs, roots[k]) == None::<BoneId> by {
        assert(roots.contains(roots[k]));
        lemma_root_listed(bs, roots[k]);
    }
    assert(roots.no_duplicates()) by {
        crate::lists::lemma_kept(bs, p);
        assert forall|i: int, j: int| 0 <= i < j < roots.len() implies roots[i] != roots[j] by {
            let f = bs.filter(p);
            let a = crate::lists::kept_at(bs, p, i);
            let b = crate::lists::kept_at(bs, p, j);
            assert(f[i] == bs[a] && f[j] == bs[b]);
        }
    }
    lemma_kids_distinct(bs, roots, None, 0, bs.len());
}

impl RigDocument {
    /// Adds the line of `id` and those of its branch to `out`.
    fn draw_bone_tree(&self, id: BoneId, depth: usize, fuel: usize, out: &mut Vec<TreeRow>)
        requires
            self.wf(),
            depth + fuel <= usize::MAX,
        ensures
            tree_view(final(out)@) == tree_view(old(out)@) + branch_rows(
                self@.bones,
                id,
                depth as nat,
                fuel as nat,
            ),
        decreases fuel,
    {
        let ghost bs = self@.bones;
        let ghost o = tree_view(out@);
        if fuel == 0 {
            assert(o + Seq::<TreeRowView>::empty() =~= o);
            return;
        }
        let b = match self.bone(id) {
            Some(b) => b,
            None => {
                assert(o + Seq::<TreeRowView>::empty() =~= o);
                return;
            },
        };
        let ghost head = seq![tree_row(bs[bone_pos(bs, id)], depth as nat)];
        let ghost kids = b.children@;
        assert(kids =~= kids_of(bs, id));
        let row = TreeRow { id, name: b.name.clone(), depth, leaf: b.children.len() == 0 };
        out.push(row);
        assert(tree_view(out@) =~= o + head);
        let ghost base = tree_view(out@);
        let mut k: usize = 0;
        assert(kids.take(0) =~= Seq::empty());
        assert(base + Seq::<TreeRowView>::empty() =~= base);
        while k < b.children.len()
            invariant
                k <= b.children@.len(),
                kids == b.children@,
                bs == self@.bones,
                self.wf(),
                fuel >= 1,
                depth + fuel <= usize::MAX,
                tree_view(out@) == base + kids_rows(
                    bs,
                    kids.take(k as int),
                    (depth + 1) as nat,
                    (fuel - 1) as nat,
                ),
            decreases b.children.len() - k,
        {
            assert(kids.take(k as int + 1).drop_last() =~= kids.take(k as int));
            assert(kids.take(k as int + 1).last() == kids[k as int]);
            let ghost t = tree_view(out@);
            self.draw_bone_tree(b.children[k], depth + 1, fuel - 1, out);
            assert(tree_view(out@) =~= base + kids_rows(
                bs,
                kids.take(k as int + 1),
                (depth + 1) as nat,
                (fuel - 1) as nat,
            ));
            k = k + 1;
        }
        assert(kids.take(k as int) =~= kids);
        assert(tree_view(out@) =~= o + branch_rows(bs, id, depth as nat, fuel as nat));
    }

    /// All lines of the bone tree, from top to bottom.
    pub fn bone_tree(&self) -> (r: Vec<TreeRow>)
        requires
            self.wf(),
        ensures
            tree_view(r@) == tree_rows(self@.bones),
    {
        let ghost bs = self@.bones;
        let roots = self.roots();
        let ghost ids = roots@;
        let mut out: Vec<TreeRow> = Vec::new();
        let mut k: usize = 0;
        let fuel = self.bones.len();
        assert(ids.take(0) =~= Seq::empty());
        assert(tree_view(out@) =~= Seq::empty());
        while k < roots.len()
            invariant
                k <= roots@.len(),
                ids == roots@,
                bs == self@.bones,
                self.wf(),
                fuel == bs.len(),
                tree_view(out@) == kids_rows(bs, ids.take(k as int), 0, fuel as nat),
            decreases roots.len() - k,
        {
            assert(ids.take(k as int + 1).drop_last() =~= ids.take(k as int));
            assert(ids.take(k as int + 1).last() == ids[k as int]);
            self.draw_bone_tree(roots[k], 0, fuel, &mut out);
            k = k + 1;
        }
        assert(ids.take(k as int) =~= ids);
        out
    }

    /// The bone whose line goes under the name `s`.
    pub fn bone_of_line(&self, s: &str) -> (r: Option<BoneId>)
        ensures
            match r {
                Some(id) => has_bone(self@.bones, id) && tree_id(id) == s@,
                None => forall|id: BoneId| has_bone(self@.bones, id) ==> #[trigger] tree_id(id)
                    != s@,
            },
    {
        let ghost bs = self@.bones;
        let mut i: usize = 0;
        while i < self.bones.len()
            invariant
                i <= self.bones@.len(),
                bs == self@.bones,
                forall|j: int| 0 <= j < i ==> tree_id((#[trigger] bs[j]).id) != s@,
            decreases self.bones.len() - i,
        {
            let id = self.bones[i].id;
            assert(bs[i as int].id == id);
            if same_text(&bone_tree_id(id), s) {
                assert(bone_at(bs, id, i as int));
                return Some(id);
            }
            i = i + 1;
        }
        assert forall|id: BoneId| has_bone(bs, id) implies #[trigger] tree_id(id) != s@ by {
            let k = bone_pos(bs, id);
            assert(bone_at(bs, id, k));
            assert(tree_id(bs[k].id) != s@);
        }
        None
    }
}

} // verus!
