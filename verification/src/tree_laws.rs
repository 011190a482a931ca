//! How lists of bones are put in order, and how a tree of bones is laid out.

use vstd::prelude::*;
use crate::bone_list::{
    bone_on_line, first_row, line_of, lists_row, row_before, row_of_bone, row_place, text_before, BoneRowView,
};
use crate::bone_tree::{branch_rows, kids_rows, root_ids, tree_id, tree_rows};
use crate::bones::{bone_at, bone_pos, distinct, has_bone, kids_of, parent_of, BoneId, BoneView};
use crate::lists::lemma_filter_contains;
use crate::rig::RigView;
use crate::rig_select::is_selection_root;
use crate::text::decimal_of;

verus! {

/// Of two texts that begin alike, the one whose next character is lower comes
/// first, whatever follows; a text comes before any longer one that begins
/// with it.
pub proof fn law_text_order(front: Seq<char>, c: char, d: char, s: Seq<char>, t: Seq<char>)
    ensures
        c != d ==> (text_before(front + seq![c] + s, front + seq![d] + t) <==> (c as u32) < (d as u32)),
        text_before(front, front + seq![c] + s),
        !text_before(front + seq![c] + s, front),
        !text_before(front, front),
    decreases front.len(),
{
    let a = front + seq![c] + s;
    let b = front + seq![d] + t;
    if front.len() == 0 {
        assert(a[0] == c && b[0] == d);
    } else {
        let rest = front.drop_first();
        law_text_order(rest, c, d, s, t);
        assert(a.drop_first() =~= rest + seq![c] + s);
        assert(b.drop_first() =~= rest + seq![d] + t);
        assert(a[0] == front[0] && b[0] == front[0]);
    }
}

/// Of two different texts one comes first, and only one.
pub proof fn law_text_total(a: Seq<char>, b: Seq<char>)
    ensures
        a != b ==> text_before(a, b) || text_before(b, a),
        !(text_before(a, b) && text_before(b, a)),
    decreases a.len(),
{
    if a.len() > 0 && b.len() > 0 && a[0] == b[0] {
        law_text_total(a.drop_first(), b.drop_first());
        if a.drop_first() == b.drop_first() {
            assert(a =~= seq![a[0]] + a.drop_first());
            assert(b =~= seq![b[0]] + b.drop_first());
        }
    } else if a.len() == 0 && b.len() == 0 {
        assert(a =~= b);
    } else if a.len() > 0 && b.len() > 0 {
        lemma_char_number(a[0], b[0]);
    }
}

proof fn lemma_char_number(c: char, d: char)
    ensures
        c as u32 == d as u32 ==> c == d,
{
    assert(c as u32 as int == c as int);
    assert(d as u32 as int == d as int);
}

/// A row of the list is for its bone; rows go by name, capitals counting as small.
pub proof fn law_rows(a: BoneView, b: BoneView)
    ensures
        row_of_bone(a).id == a.id && row_of_bone(a).name == a.name,
        row_before(row_of_bone(a), row_of_bone(b)) <==> text_before(
            crate::text::lowercase(a.name),
            crate::text::lowercase(b.name),
        ),
{
}

/// A branch begins with the line of its bone, as deep as the branch; every line
/// after it lies deeper.
pub proof fn law_branch(bs: Seq<BoneView>, id: BoneId, depth: nat, fuel: nat, i: int)
    requires
        has_bone(bs, id),
        fuel > 0,
    ensures
        branch_rows(bs, id, depth, fuel).len() > 0,
        branch_rows(bs, id, depth, fuel)[0].id == bs[bone_pos(bs, id)].id,
        branch_rows(bs, id, depth, fuel)[0].name == bs[bone_pos(bs, id)].name,
        branch_rows(bs, id, depth, fuel)[0].depth == depth,
        branch_rows(bs, id, depth, fuel)[0].leaf <==> bs[bone_pos(bs, id)].children.len() == 0,
        0 < i < branch_rows(bs, id, depth, fuel).len() ==> branch_rows(bs, id, depth, fuel)[i].depth > depth,
{
    lemma_kids_deep(bs, kids_of(bs, id), depth + 1, (fuel - 1) as nat, i - 1);
}

proof fn lemma_kids_deep(bs: Seq<BoneView>, kids: Seq<BoneId>, depth: nat, fuel: nat, i: int)
    ensures
        0 <= i < kids_rows(bs, kids, depth, fuel).len() ==> kids_rows(bs, kids, depth, fuel)[i].depth >= depth,
    decreases fuel, kids.len() + 1,
{
    if kids.len() > 0 {
        let front = kids_rows(bs, kids.drop_last(), depth, fuel);
        lemma_kids_deep(bs, kids.drop_last(), depth, fuel, i);
        lemma_branch_deep(bs, kids.last(), depth, fuel, i - front.len());
    }
}

proof fn lemma_branch_deep(bs: Seq<BoneView>, id: BoneId, depth: nat, fuel: nat, i: int)
    ensures
        0 <= i < branch_rows(bs, id, depth, fuel).len() ==> branch_rows(bs, id, depth, fuel)[i].depth >= depth,
    decreases fuel, 0nat,
{
    if fuel > 0 && has_bone(bs, id) {
        lemma_kids_deep(bs, kids_of(bs, id), depth + 1, (fuel - 1) as nat, i - 1);
    }
}

/// The branches of several bones stand one after the other.
pub proof fn law_branches(bs: Seq<BoneView>, a: Seq<BoneId>, id: BoneId, depth: nat, fuel: nat)
    ensures
        kids_rows(bs, a.push(id), depth, fuel) == kids_rows(bs, a, depth, fuel) + branch_rows(bs, id, depth, fuel),
        kids_rows(bs, Seq::empty(), depth, fuel).len() == 0,
{
    assert(a.push(id).drop_last() =~= a);
}

/// The tree stands on the bones without parent, and on them alone; it begins at
/// the edge.
pub proof fn law_roots(bs: Seq<BoneView>, i: int, id: BoneId, k: int)
    ensures
        0 <= i < bs.len() && bs[i].parent is None ==> root_ids(bs).contains(bs[i].id),
        root_ids(bs).contains(id) ==> exists|j: int| 0 <= j < bs.len() && (#[trigger] bs[j]).id == id && bs[j].parent is None,
        tree_rows(bs) == kids_rows(bs, root_ids(bs), 0, bs.len()),
{
    let p = |b: BoneView| b.parent is None;
    let f = bs.filter(p);
    if 0 <= i < bs.len() && bs[i].parent is None {
        lemma_filter_contains(bs, p, bs[i]);
        assert(bs.contains(bs[i]));
        let k = choose|k: int| 0 <= k < f.len() && f[k] == bs[i];
        assert(root_ids(bs)[k] == bs[i].id);
    }
    if root_ids(bs).contains(id) {
        let k = choose|k: int| 0 <= k < root_ids(bs).len() && root_ids(bs)[k] == id;
        lemma_filter_contains(bs, p, f[k]);
        assert(f.contains(f[k]));
        let j = choose|j: int| 0 <= j < bs.len() && bs[j] == f[k];
        assert(bs[j].id == id);
    }
}

/// A menu of bones begins with none at line zero; each row stands one line
/// further down, and there are no lines after the last row.
pub proof fn law_menu_lines(rows: Seq<BoneRowView>, b: BoneId, i: int)
    ensures
        bone_on_line(rows, 0) is None,
        0 <= i < rows.len() ==> bone_on_line(rows, i + 1) == Some(rows[i].id),
        i > rows.len() ==> bone_on_line(rows, i) is None,
        line_of(rows, None) == 0,
        (forall|j: int| 0 <= j < rows.len() ==> (#[trigger] rows[j]).id != b) ==> line_of(rows, Some(b)) == 0,
        0 <= i < rows.len() && rows[i].id == b && (forall|j: int| 0 <= j < i ==> (#[trigger] rows[j]).id != b)
            ==> line_of(rows, Some(b)) == i + 1,
{
    if lists_row(rows, b) {
        let k = row_place(rows, b);
        assert(first_row(rows, b, k));
        assert(rows[k].id == b);
    }
    if 0 <= i < rows.len() && rows[i].id == b && forall|j: int| 0 <= j < i ==> (#[trigger] rows[j]).id != b {
        assert(first_row(rows, b, i));
        let k = row_place(rows, b);
        assert(first_row(rows, b, k));
        assert(rows[k].id == b);
    }
}

/// A line of the tree goes by the slot and the generation of its bone.
pub proof fn law_tree_id(id: BoneId)
    ensures
        tree_id(id) == "bone_"@ + decimal_of(id.node.index as nat) + "_"@ + decimal_of(id.node.generation as nat),
{
}

/// The children and the parent of a bone are those it records; what is no bone
/// has neither.
pub proof fn law_family(bs: Seq<BoneView>, id: BoneId, i: int)
    requires
        distinct(bs),
    ensures
        0 <= i < bs.len() ==> kids_of(bs, bs[i].id) == bs[i].children && parent_of(bs, bs[i].id) == bs[i].parent,
        (forall|j: int| 0 <= j < bs.len() ==> (#[trigger] bs[j]).id != id) ==> kids_of(bs, id).len() == 0 && parent_of(
            bs,
            id,
        ) is None,
{
    if 0 <= i < bs.len() {
        assert(bone_at(bs, bs[i].id, i));
        let k = bone_pos(bs, bs[i].id);
        assert(bone_at(bs, bs[i].id, k));
        assert(bs[k].id == bs[i].id);
    }
    if has_bone(bs, id) {
        let k = choose|k: int| bone_at(bs, id, k);
        assert(bs[k].id == id);
    }
}

/// A root of the selection is selected and its parent is not; every selected
/// bone is one or has a selected parent.
pub proof fn law_selection_root(r: RigView, id: BoneId, p: BoneId)
    ensures
        is_selection_root(r, id) ==> r.selected.contains(id),
        parent_of(r.bones, id) == Some(p) && r.selected.contains(p) ==> !is_selection_root(r, id),
        r.selected.contains(id) && parent_of(r.bones, id) is None ==> is_selection_root(r, id),
        r.selected.contains(id) && parent_of(r.bones, id) == Some(p) && !r.selected.contains(p) ==> is_selection_root(
            r,
            id,
        ),
{
}

} // verus!
