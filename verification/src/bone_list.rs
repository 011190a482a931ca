//! The list of bones that menus offer: sorted by name without regard to case,
//! and the choice of one of its lines.

use vstd::prelude::*;
use crate::bones::{BoneId, BoneView};
use crate::kinds::DriverSpace;
use crate::rig::RigDocument;
use crate::text::{chars_of, lowercase, to_lowercase};

verus! {

/// `a` comes before `b`, character by character.
pub open spec fn text_before(a: Seq<char>, b: Seq<char>) -> bool
    decreases a.len(),
{
    if b.len() == 0 {
        false
    } else if a.len() == 0 {
        true
    } else if a[0] != b[0] {
        (a[0] as u32) < (b[0] as u32)
    } else {
        text_before(a.drop_first(), b.drop_first())
    }
}

/// What comes before something comes before all that follows it.
pub proof fn lemma_text_transitive(a: Seq<char>, b: Seq<char>, c: Seq<char>)
    requires
        text_before(a, b),
        text_before(b, c),
    ensures
        text_before(a, c),
    decreases a.len(),
{
    if a.len() > 0 {
        if a[0] == b[0] && b[0] == c[0] {
            lemma_text_transitive(a.drop_first(), b.drop_first(), c.drop_first());
        }
    }
}

/// Whether `a` comes before `b`.
pub fn is_before(a: &Vec<char>, b: &Vec<char>) -> (r: bool)
    ensures
        r == text_before(a@, b@),
{
    let mut i: usize = 0;
    assert(a@.skip(0) =~= a@);
    assert(b@.skip(0) =~= b@);
    while i < a.len() && i < b.len()
        invariant
            i <= a@.len(),
            i <= b@.len(),
            text_before(a@, b@) == text_before(a@.skip(i as int), b@.skip(i as int)),
        decreases a.len() - i,
    {
        let ghost x = a@.skip(i as int);
        let ghost y = b@.skip(i as int);
        assert(x[0] == a@[i as int] && y[0] == b@[i as int]);
        if a[i] != b[i] {
            return (a[i] as u32) < (b[i] as u32);
        }
        assert(x.drop_first() =~= a@.skip(i as int + 1));
        assert(y.drop_first() =~= b@.skip(i as int + 1));
        i = i + 1;
    }
    i < b.len()
}

/// A bone as menus list it.
pub struct BoneRow {
    pub id: BoneId,
    pub name: String,
}

/// What a bone row holds.
#[verifier::ext_equal]
pub struct BoneRowView {
    pub id: BoneId,
    pub name: Seq<char>,
}

impl View for BoneRow {
    type V = BoneRowView;

    open spec fn view(&self) -> BoneRowView {
        BoneRowView { id: self.id, name: self.name@ }
    }
}

pub open spec fn bone_rows_view(s: Seq<BoneRow>) -> Seq<BoneRowView> {
    Seq::new(s.len(), |i: int| s[i]@)
}

/// `a` is listed before `b`: its name in lower case comes first.
pub open spec fn row_before(a: BoneRowView, b: BoneRowView) -> bool {
    text_before(lowercase(a.name), lowercase(b.name))
}

/// The first place from `i` on at which `b` comes before what stands there.
pub open spec fn place_from(rows: Seq<BoneRowView>, b: BoneRowView, i: int) -> int
    decreases rows.len() - i,
{
    if i >= rows.len() || row_before(b, rows[i]) {
        i
    } else {
        place_from(rows, b, i + 1)
    }
}

/// The row of bone `b`.
pub open spec fn row_of_bone(b: BoneView) -> BoneRowView {
    BoneRowView { id: b.id, name: b.name }
}

/// The bones by name; bones whose names differ in case only keep their order.
pub open spec fn bones_by_name(bs: Seq<BoneView>) -> Seq<BoneRowView>
    decreases bs.len(),
{
    if bs.len() == 0 {
        Seq::empty()
    } else {
        let front = bones_by_name(bs.drop_last());
        let b = row_of_bone(bs.last());
        front.insert(place_from(front, b, 0), b)
    }
}

proof fn lemma_place(rows: Seq<BoneRowView>, b: BoneRowView, i: int)
    requires
        0 <= i <= rows.len(),
    ensures
        i <= place_from(rows, b, i) <= rows.len(),
        forall|j: int| i <= j < place_from(rows, b, i) ==> !row_before(b, #[trigger] rows[j]),
        place_from(rows, b, i) < rows.len() ==> row_before(b, rows[place_from(rows, b, i)]),
    decreases rows.len() - i,
{
    if i < rows.len() && !row_before(b, rows[i]) {
        lemma_place(rows, b, i + 1);
    }
}

/// The list holds every bone as often as the skeleton does, and no line comes
/// after one that it should precede.
pub proof fn law_bones_by_name(bs: Seq<BoneView>)
    ensures
        bones_by_name(bs).to_multiset() == bs.map_values(|b: BoneView| row_of_bone(b)).to_multiset(),
        forall|i: int, j: int|
            0 <= i < j < bones_by_name(bs).len() ==> !row_before(
                #[trigger] bones_by_name(bs)[j],
                #[trigger] bones_by_name(bs)[i],
            ),
    decreases bs.len(),
{
    let f = |b: BoneView| row_of_bone(b);
    if bs.len() == 0 {
        assert(bs.map_values(f) =~= Seq::empty());
    } else {
        let short = bs.drop_last();
        let front = bones_by_name(short);
        let b = row_of_bone(bs.last());
        let p = place_from(front, b, 0);
        law_bones_by_name(short);
        lemma_place(front, b, 0);
        vstd::seq_lib::to_multiset_insert(front, p, b);
        assert(bs.map_values(f) =~= short.map_values(f).push(b));
        vstd::seq_lib::to_multiset_build(short.map_values(f), b);
        let rows = bones_by_name(bs);
        assert(rows == front.insert(p, b));
        assert forall|i: int, j: int| 0 <= i < j < rows.len() implies !row_before(
            #[trigger] rows[j],
            #[trigger] rows[i],
        ) by {
            if j == p {
                assert(rows[i] == front[i]);
            } else if i == p {
                assert(rows[j] == front[j - 1]);
                if row_before(front[j - 1], b) {
                    lemma_text_transitive(
                        lowercase(front[j - 1].name),
                        lowercase(b.name),
                        lowercase(front[p].name),
                    );
                    if p < j - 1 {
                        assert(!row_before(front[j - 1], front[p]));
                    }
                    lemma_text_irreflexive(lowercase(front[p].name));
                }
            } else {
                let x = if i < p {
                    i
                } else {
                    i - 1
                };
                let y = if j < p {
                    j
                } else {
                    j - 1
                };
                assert(rows[i] == front[x] && rows[j] == front[y]);
            }
        }
    }
}

proof fn lemma_text_irreflexive(a: Seq<char>)
    ensures
        !text_before(a, a),
    decreases a.len(),
{
    if a.len() > 0 {
        lemma_text_irreflexive(a.drop_first());
    }
}

/// Line of `bone` in a menu that begins with "(none)": 0 for no bone and for a
/// bone that is not listed.
pub open spec fn line_of(rows: Seq<BoneRowView>, bone: Option<BoneId>) -> int {
    match bone {
        Some(b) => if lists_row(rows, b) {
            1 + row_place(rows, b)
        } else {
            0
        },
        None => 0,
    }
}

/// Row `i` is the first one of bone `b`.
pub open spec fn first_row(rows: Seq<BoneRowView>, b: BoneId, i: int) -> bool {
    &&& 0 <= i < rows.len()
    &&& rows[i].id == b
    &&& forall|j: int| 0 <= j < i ==> (#[trigger] rows[j]).id != b
}

/// Some row is for bone `b`.
pub open spec fn lists_row(rows: Seq<BoneRowView>, b: BoneId) -> bool {
    exists|i: int| first_row(rows, b, i)
}

/// The place of the first row of bone `b`.
pub open spec fn row_place(rows: Seq<BoneRowView>, b: BoneId) -> int {
    choose|i: int| first_row(rows, b, i)
}

/// The bone on line `i` of such a menu.
pub open spec fn bone_on_line(rows: Seq<BoneRowView>, i: int) -> Option<BoneId> {
    if 1 <= i <= rows.len() {
        Some(rows[i - 1].id)
    } else {
        None
    }
}

/// Choosing the line on which a listed bone stands gives that bone back.
pub proof fn law_bone_line(rows: Seq<BoneRowView>, b: BoneId)
    requires
        exists|i: int| 0 <= i < rows.len() && (#[trigger] rows[i]).id == b,
    ensures
        bone_on_line(rows, line_of(rows, Some(b))) == Some(b),
{
    let i = choose|i: int| 0 <= i < rows.len() && (#[trigger] rows[i]).id == b;
    lemma_first_row(rows, b, i);
    let k = row_place(rows, b);
    assert(first_row(rows, b, k));
}

proof fn lemma_first_row(rows: Seq<BoneRowView>, b: BoneId, i: int)
    requires
        0 <= i < rows.len(),
        rows[i].id == b,
    ensures
        exists|k: int| first_row(rows, b, k),
    decreases i,
{
    if exists|j: int| 0 <= j < i && (#[trigger] rows[j]).id == b {
        let j = choose|j: int| 0 <= j < i && (#[trigger] rows[j]).id == b;
        lemma_first_row(rows, b, j);
    } else {
        assert(first_row(rows, b, i));
    }
}

/// Line of `bone` in a menu that begins with "(none)".
pub fn bone_select_index(bones: &Vec<BoneRow>, bone: Option<BoneId>) -> (r: usize)
    requires
        bones@.len() < usize::MAX,
    ensures
        r == line_of(bone_rows_view(bones@), bone),
{
    let ghost rows = bone_rows_view(bones@);
    let b = match bone {
        Some(b) => b,
        None => {
            return 0;
        },
    };
    let mut i: usize = 0;
    while i < bones.len()
        invariant
            i <= bones@.len(),
            bones@.len() < usize::MAX,
            rows == bone_rows_view(bones@),
            bone == Some(b),
            forall|j: int| 0 <= j < i ==> (#[trigger] rows[j]).id != b,
        decreases bones.len() - i,
    {
        assert(rows[i as int].id == bones@[i as int].id);
        if bones[i].id == b {
            proof {
                assert(first_row(rows, b, i as int));
                let k = row_place(rows, b);
                assert(k == i) by {
                    if k < i {
                        assert(rows[k].id != b);
                    } else if i < k {
                        assert(rows[i as int].id != b);
                    }
                }
            }
            assert(lists_row(rows, b));
            return i + 1;
        }
        i = i + 1;
    }
    0
}

/// The bone on line `i` of a menu that begins with "(none)".
pub fn bone_chosen(bones: &Vec<BoneRow>, i: usize) -> (r: Option<BoneId>)
    ensures
        r == bone_on_line(bone_rows_view(bones@), i as int),
{
    if i == 0 || i > bones.len() {
        None
    } else {
        Some(bones[i - 1].id)
    }
}

/// What the pick button of a bone field does: the bone it sets, if any, and
/// what the status line says.
pub fn bone_from_selection(selection: Option<BoneId>) -> (r: (Option<BoneId>, &'static str))
    ensures
        r.0 == selection,
        r.1@ == (if selection is Some {
            "Bone ← selection"@
        } else {
            "Select a bone in the viewport first"@
        }),
{
    if selection.is_some() {
        (selection, "Bone ← selection")
    } else {
        (None, "Select a bone in the viewport first")
    }
}

/// The space on line `i` of its menu; past the end the last one.
pub fn space_chosen(i: usize) -> (r: DriverSpace)
    ensures
        r == DriverSpace::order()[if i < 2 {
            i as int
        } else {
            2
        }],
{
    match i {
        0 => DriverSpace::Local,
        1 => DriverSpace::World,
        _ => DriverSpace::BindOffset,
    }
}

impl RigDocument {
    /// The bones by name, without regard to case.
    pub fn bones_sorted(&self) -> (r: Vec<BoneRow>)
        ensures
            bone_rows_view(r@) == bones_by_name(self@.bones),
    {
        let ghost bs = self@.bones;
        let mut out: Vec<BoneRow> = Vec::new();
        let mut keys: Vec<Vec<char>> = Vec::new();
        let mut i: usize = 0;
        assert(bs.take(0) =~= Seq::empty());
        assert(bone_rows_view(out@) =~= Seq::empty());
        while i < self.bones.len()
            invariant
                i <= self.bones@.len(),
                bs == self@.bones,
                bone_rows_view(out@) == bones_by_name(bs.take(i as int)),
                keys@.len() == out@.len(),
                forall|j: int|
                    0 <= j < keys@.len() ==> (#[trigger] keys@[j])@ == lowercase(out@[j].name@),
            decreases self.bones.len() - i,
        {
            let ghost rows = bone_rows_view(out@);
            let ghost t = bs.take(i as int + 1);
            assert(t.drop_last() =~= bs.take(i as int));
            assert(t.last() == bs[i as int]);
            assert(bs[i as int] == self.bones@[i as int]@);
            let row = BoneRow { id: self.bones[i].id, name: self.bones[i].name.clone() };
            let ghost b = row@;
            assert(b == row_of_bone(bs[i as int]));
            let key = chars_of(&to_lowercase(&row.name));
            let mut p: usize = 0;
            let mut found = false;
            while p < keys.len() && !found
                invariant
                    p <= keys@.len(),
                    keys@.len() == out@.len(),
                    rows == bone_rows_view(out@),
                    key@ == lowercase(b.name),
                    forall|j: int|
                        0 <= j < keys@.len() ==> (#[trigger] keys@[j])@ == lowercase(out@[j].name@),
                    place_from(rows, b, 0) == place_from(rows, b, p as int),
                    found ==> p < keys@.len() && row_before(b, rows[p as int]),
                decreases keys.len() - p + (if found {
                    0int
                } else {
                    1int
                }),
            {
                assert(rows[p as int].name == out@[p as int].name@);
                if is_before(&key, &keys[p]) {
                    found = true;
                } else {
                    p = p + 1;
                }
            }
            assert(place_from(rows, b, 0) == p);
            let ghost o = out@;
            let ghost ks = keys@;
            out.insert(p, row);
            keys.insert(p, key);
            assert(bone_rows_view(out@) =~= rows.insert(p as int, b));
            assert forall|j: int| 0 <= j < keys@.len() implies (#[trigger] keys@[j])@ == lowercase(
                out@[j].name@,
            ) by {
                if j < p {
                    assert(keys@[j] == ks[j] && out@[j] == o[j]);
                } else if j > p {
                    assert(keys@[j] == ks[j - 1] && out@[j] == o[j - 1]);
                }
            }
            i = i + 1;
        }
        assert(bs.take(i as int) =~= bs);
        out
    }
}

} // verus!
