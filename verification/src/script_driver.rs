//! Writing a driver down as a script that recreates it.

use vstd::prelude::*;
use crate::bones::BoneId;
use crate::driver::{
    lists_text, node_id, nodes_ok, Driver, DriverNode, DriverNodeView, DriverView, NodeLinkView,
};
use crate::geom::Scalar;
use crate::kinds::DriverNodeKind;
use crate::scene::texts_view;
use crate::script::{ascii_digit, ident_of, is_ident, law_ident_valid, lua_ident, lua_quoted, lua_str, node_opts, opts_text, prints, text_of};
use crate::text::{decimal_of, decimal_wide, join, lemma_decimal_digits, lemma_decimal_injective, same_text};

verus! {

/// Names given out so far, and which node has which.
#[verifier::ext_equal]
pub struct Names {
    pub used: Seq<Seq<char>>,
    pub pairs: Seq<(Seq<char>, Seq<char>)>,
}

/// A script cannot keep a node under this name: it is the driver's own, or a
/// word of the language.
pub open spec fn reserved(s: Seq<char>) -> bool {
    ||| s == "d"@
    ||| s == "and"@
    ||| s == "break"@
    ||| s == "do"@
    ||| s == "else"@
    ||| s == "elseif"@
    ||| s == "end"@
    ||| s == "false"@
    ||| s == "for"@
    ||| s == "function"@
    ||| s == "goto"@
    ||| s == "if"@
    ||| s == "in"@
    ||| s == "local"@
    ||| s == "nil"@
    ||| s == "not"@
    ||| s == "or"@
    ||| s == "repeat"@
    ||| s == "return"@
    ||| s == "then"@
    ||| s == "true"@
    ||| s == "until"@
    ||| s == "while"@
}

/// `plain` with number `n` behind it.
pub open spec fn numbered(plain: Seq<char>, n: nat) -> Seq<char> {
    plain + "_"@ + decimal_of(n)
}

/// Counting from `from`, `n` is the first number with which `plain` is unused.
pub open spec fn counted(used: Seq<Seq<char>>, plain: Seq<char>, from: nat, n: nat) -> bool {
    &&& from <= n
    &&& !used.contains(numbered(plain, n))
    &&& forall|j: nat| from <= j < n ==> used.contains(#[trigger] numbered(plain, j))
}

/// A name that is not used yet: `plain` itself, or with the first number that
/// makes it new, counting from how many names there are.
pub open spec fn free_name(used: Seq<Seq<char>>, plain: Seq<char>) -> Seq<char> {
    if used.contains(plain) || reserved(plain) {
        numbered(plain, choose|n: nat| #[trigger] counted(used, plain, used.len(), n))
    } else {
        plain
    }
}

/// A name for node `id`: its identifier, with a number behind it where that
/// cannot be had.
pub open spec fn name_node(names: Names, id: Seq<char>) -> Names {
    let name = free_name(names.used, ident_of(id));
    Names { used: names.used.push(name), pairs: names.pairs.push((id, name)) }
}

/// The names of the first `k` nodes.
pub open spec fn name_nodes(nodes: Seq<DriverNodeView>, k: nat) -> Names
    decreases k,
{
    if k == 0 {
        Names { used: Seq::empty(), pairs: Seq::empty() }
    } else {
        name_node(name_nodes(nodes, (k - 1) as nat), nodes[k - 1].id)
    }
}

/// The name of node `id`, or `other` where it has none.
pub open spec fn name_in(
    pairs: Seq<(Seq<char>, Seq<char>)>,
    id: Seq<char>,
    other: Seq<char>,
) -> Seq<char>
    decreases pairs.len(),
{
    if pairs.len() == 0 {
        other
    } else if pairs[0].0 == id {
        pairs[0].1
    } else {
        name_in(pairs.skip(1), id, other)
    }
}

/// The name of the first bone `id` in the list.
pub open spec fn bone_in(bones: Seq<(BoneId, Seq<char>)>, id: BoneId) -> Option<Seq<char>>
    decreases bones.len(),
{
    if bones.len() == 0 {
        None
    } else if bones[0].0 == id {
        Some(bones[0].1)
    } else {
        bone_in(bones.skip(1), id)
    }
}

pub open spec fn node_bone_name(
    bones: Seq<(BoneId, Seq<char>)>,
    n: DriverNodeView,
) -> Option<Seq<char>> {
    match n.bone {
        Some(b) => bone_in(bones, b),
        None => None,
    }
}

/// The lines that recreate node `n`.
pub open spec fn node_lines(
    m: spec_fn(Scalar) -> Seq<char>,
    bones: Seq<(BoneId, Seq<char>)>,
    pairs: Seq<(Seq<char>, Seq<char>)>,
    n: DriverNodeView,
) -> Seq<char> {
    let note = if n.kind == DriverNodeKind::MorphSet {
        "-- morph_set: bind the mesh in the node editor if needed\n"@
    } else {
        Seq::empty()
    };
    note + "local "@ + name_in(pairs, n.id, "n"@) + " = d:add("@ + lua_quoted(n.kind.slug_of())
        + ", "@ + opts_text(m, n, node_bone_name(bones, n)) + ")\n"@
}

/// The line that recreates link `l`.
pub open spec fn link_line(pairs: Seq<(Seq<char>, Seq<char>)>, l: NodeLinkView) -> Seq<char> {
    "d:link("@ + name_in(pairs, l.from_node, l.from_node) + ", "@ + lua_quoted(l.from_port) + ", "@
        + name_in(pairs, l.to_node, l.to_node) + ", "@ + lua_quoted(l.to_port) + ")\n"@
}

/// The first lines: the driver itself.
pub open spec fn driver_head(d: DriverView) -> Seq<char> {
    let made = "local d = rig.create_driver("@ + lua_quoted(d.name) + ")\n"@;
    if d.enabled {
        made
    } else {
        made + "d:enable(false)\n"@
    }
}

/// The lines up to node `k`.
pub open spec fn with_nodes(
    m: spec_fn(Scalar) -> Seq<char>,
    bones: Seq<(BoneId, Seq<char>)>,
    d: DriverView,
    k: nat,
) -> Seq<char>
    decreases k,
{
    if k == 0 {
        driver_head(d)
    } else {
        with_nodes(m, bones, d, (k - 1) as nat) + node_lines(
            m,
            bones,
            name_nodes(d.nodes, d.nodes.len()).pairs,
            d.nodes[k - 1],
        )
    }
}

/// The lines up to link `k`.
pub open spec fn with_links(
    m: spec_fn(Scalar) -> Seq<char>,
    bones: Seq<(BoneId, Seq<char>)>,
    d: DriverView,
    k: nat,
) -> Seq<char>
    decreases k,
{
    if k == 0 {
        with_nodes(m, bones, d, d.nodes.len())
    } else {
        with_links(m, bones, d, (k - 1) as nat) + link_line(
            name_nodes(d.nodes, d.nodes.len()).pairs,
            d.space.links[k - 1],
        )
    }
}

/// The script that recreates driver `d`.
pub open spec fn driver_script(
    m: spec_fn(Scalar) -> Seq<char>,
    bones: Seq<(BoneId, Seq<char>)>,
    d: DriverView,
) -> Seq<char> {
    with_links(m, bones, d, d.space.links.len())
}

/// Nodes with proper ids keep their ids as names.
pub proof fn law_names_are_ids(nodes: Seq<DriverNodeView>, serial: nat, k: nat)
    requires
        nodes_ok(nodes, serial),
        k <= nodes.len(),
    ensures
        name_nodes(nodes, k).pairs == Seq::new(k, |i: int| (nodes[i].id, nodes[i].id)),
        name_nodes(nodes, k).used == Seq::new(k, |i: int| nodes[i].id),
    decreases k,
{
    if k > 0 {
        law_names_are_ids(nodes, serial, (k - 1) as nat);
        let before = name_nodes(nodes, (k - 1) as nat);
        let id = nodes[k - 1].id;
        let m = choose|m: nat| m < serial && #[trigger] node_id(m) == id;
        lemma_node_id_ident(m);
        assert(ident_of(id) == id);
        lemma_node_id_free(m);
        assert(!before.used.contains(id)) by {
            if before.used.contains(id) {
                let i = choose|i: int| 0 <= i < before.used.len() && before.used[i] == id;
                assert(nodes[i].id != nodes[k - 1].id);
            }
        }
    }
    assert(name_nodes(nodes, k).pairs =~= Seq::new(k, |i: int| (nodes[i].id, nodes[i].id)));
    assert(name_nodes(nodes, k).used =~= Seq::new(k, |i: int| nodes[i].id));
}

proof fn lemma_node_id_ident(m: nat)
    ensures
        is_ident(node_id(m)),
{
    reveal_strlit("n");
    lemma_decimal_digits(m);
    let s = node_id(m);
    let d = decimal_of(m);
    assert(s[0] == 'n');
    assert forall|i: int| 0 <= i < s.len() implies crate::script::ascii_letter(#[trigger] s[i])
        || ascii_digit(s[i]) || s[i] == '_' by {
        if i > 0 {
            assert(s[i] == d[i - 1]);
        }
    }
}

/// No reserved word ends in a digit.
proof fn lemma_reserved_ends(s: Seq<char>)
    requires
        reserved(s),
    ensures
        s.len() >= 1,
        !ascii_digit(s.last()),
{
    reveal_strlit("d");
    reveal_strlit("and");
    reveal_strlit("break");
    reveal_strlit("do");
    reveal_strlit("else");
    reveal_strlit("elseif");
    reveal_strlit("end");
    reveal_strlit("false");
    reveal_strlit("for");
    reveal_strlit("function");
    reveal_strlit("goto");
    reveal_strlit("if");
    reveal_strlit("in");
    reveal_strlit("local");
    reveal_strlit("nil");
    reveal_strlit("not");
    reveal_strlit("or");
    reveal_strlit("repeat");
    reveal_strlit("return");
    reveal_strlit("then");
    reveal_strlit("true");
    reveal_strlit("until");
    reveal_strlit("while");
}

proof fn lemma_node_id_free(m: nat)
    ensures
        !reserved(node_id(m)),
{
    reveal_strlit("n");
    lemma_decimal_digits(m);
    let s = node_id(m);
    if reserved(s) {
        lemma_reserved_ends(s);
        assert(s.last() == decimal_of(m).last());
    }
}

/// A number is given to a text in one way only.
proof fn lemma_numbered_injective(plain: Seq<char>, a: nat, b: nat)
    requires
        numbered(plain, a) == numbered(plain, b),
    ensures
        a == b,
{
    reveal_strlit("_");
    let at = plain.len() + 1;
    assert(numbered(plain, a).skip(at as int) =~= decimal_of(a));
    assert(numbered(plain, b).skip(at as int) =~= decimal_of(b));
    lemma_decimal_injective(a, b);
}

/// No more numbers are taken than there are names.
proof fn lemma_taken_bounded(used: Seq<Seq<char>>, plain: Seq<char>, from: nat, n: nat)
    requires
        from <= n,
        forall|j: nat| from <= j < n ==> used.contains(#[trigger] numbered(plain, j)),
    ensures
        n - from <= used.len(),
{
    let s = Seq::new((n - from) as nat, |i: int| numbered(plain, (from + i) as nat));
    assert forall|i: int, j: int| 0 <= i < j < s.len() implies #[trigger] s[i] != #[trigger] s[j] by {
        if s[i] == s[j] {
            lemma_numbered_injective(plain, (from + i) as nat, (from + j) as nat);
        }
    }
    assert forall|x: Seq<char>| #[trigger] s.to_set().contains(x) implies used.to_set().contains(x) by {
        let i = choose|i: int| 0 <= i < s.len() && s[i] == x;
        assert(used.contains(numbered(plain, (from + i) as nat)));
    }
    assert(s.to_set().subset_of(used.to_set()));
    s.unique_seq_to_set();
    used.lemma_cardinality_of_set();
    vstd::seq_lib::seq_to_set_is_finite(used);
    vstd::set_lib::lemma_len_subset(s.to_set(), used.to_set());
}

/// Some number is free.
proof fn lemma_counted_exists(used: Seq<Seq<char>>, plain: Seq<char>, from: nat, n: nat) -> (r: nat)
    requires
        from <= n,
        forall|j: nat| from <= j < n ==> used.contains(#[trigger] numbered(plain, j)),
    ensures
        counted(used, plain, from, r),
    decreases from + used.len() + 1 - n,
{
    lemma_taken_bounded(used, plain, from, n);
    if used.contains(numbered(plain, n)) {
        lemma_counted_exists(used, plain, from, n + 1)
    } else {
        n
    }
}

proof fn lemma_counted_unique(used: Seq<Seq<char>>, plain: Seq<char>, from: nat, n: nat)
    requires
        counted(used, plain, from, n),
    ensures
        (choose|m: nat| #[trigger] counted(used, plain, from, m)) == n,
{
    let m = choose|m: nat| #[trigger] counted(used, plain, from, m);
    if m < n {
        assert(used.contains(numbered(plain, m)));
    }
    if n < m {
        assert(used.contains(numbered(plain, n)));
    }
}

/// A name that is given out is new, can be used in a script, and has the shape
/// of a name.
proof fn lemma_free_name(used: Seq<Seq<char>>, plain: Seq<char>)
    requires
        is_ident(plain),
    ensures
        !used.contains(free_name(used, plain)),
        !reserved(free_name(used, plain)),
        is_ident(free_name(used, plain)),
{
    if used.contains(plain) || reserved(plain) {
        let n = lemma_counted_exists(used, plain, used.len(), used.len());
        lemma_counted_unique(used, plain, used.len(), n);
        let s = numbered(plain, n);
        let t = decimal_of(n);
        reveal_strlit("_");
        lemma_decimal_digits(n);
        assert(s.last() == t.last());
        if reserved(s) {
            lemma_reserved_ends(s);
        }
        assert forall|i: int| 0 <= i < s.len() implies crate::script::ascii_letter(#[trigger] s[i])
            || ascii_digit(s[i]) || s[i] == '_' by {
            if i < plain.len() {
                assert(s[i] == plain[i]);
            } else if i > plain.len() {
                assert(s[i] == t[i - plain.len() - 1]);
            }
        }
        assert(s[0] == plain[0]);
    }
}

/// The names given out so far are those of the nodes, in order, and no two are
/// alike.
proof fn lemma_names(nodes: Seq<DriverNodeView>, k: nat)
    requires
        k <= nodes.len(),
    ensures
        name_nodes(nodes, k).used.len() == k,
        name_nodes(nodes, k).pairs.len() == k,
        forall|i: int|
            0 <= i < k ==> (#[trigger] name_nodes(nodes, k).pairs[i]).0 == nodes[i].id
                && name_nodes(nodes, k).pairs[i].1 == name_nodes(nodes, k).used[i],
        forall|i: int|
            0 <= i < k ==> is_ident(#[trigger] name_nodes(nodes, k).used[i]) && !reserved(
                name_nodes(nodes, k).used[i],
            ),
        name_nodes(nodes, k).used.no_duplicates(),
    decreases k,
{
    if k > 0 {
        lemma_names(nodes, (k - 1) as nat);
        let before = name_nodes(nodes, (k - 1) as nat);
        let id = nodes[k - 1].id;
        law_ident_valid(id);
        lemma_free_name(before.used, ident_of(id));
    }
}

/// The name found is that of the first node with the id.
proof fn lemma_name_in(pairs: Seq<(Seq<char>, Seq<char>)>, i: int, other: Seq<char>)
    requires
        0 <= i < pairs.len(),
        forall|j: int| 0 <= j < i ==> (#[trigger] pairs[j]).0 != pairs[i].0,
    ensures
        name_in(pairs, pairs[i].0, other) == pairs[i].1,
    decreases i,
{
    if i > 0 {
        assert(pairs[0].0 != pairs[i].0);
        let rest = pairs.skip(1);
        assert(rest[i - 1] == pairs[i]);
        assert forall|j: int| 0 <= j < i - 1 implies (#[trigger] rest[j]).0 != rest[i - 1].0 by {
            assert(rest[j] == pairs[j + 1]);
        }
        lemma_name_in(rest, i - 1, other);
    }
}

/// Nodes with distinct ids have distinct names in the script of their driver,
/// none of which hides the driver or is a word of the language: every line
/// names the node that it means.
pub proof fn law_names_distinct(nodes: Seq<DriverNodeView>, i: int, j: int, other: Seq<char>)
    requires
        forall|a: int, b: int|
            0 <= a < b < nodes.len() ==> (#[trigger] nodes[a]).id != (#[trigger] nodes[b]).id,
        0 <= i < nodes.len(),
        0 <= j < nodes.len(),
    ensures
        ({
            let pairs = name_nodes(nodes, nodes.len()).pairs;
            let x = name_in(pairs, nodes[i].id, other);
            let y = name_in(pairs, nodes[j].id, other);
            &&& x == y <==> i == j
            &&& is_ident(x) && !reserved(x)
        }),
{
    let n = name_nodes(nodes, nodes.len());
    lemma_names(nodes, nodes.len());
    assert forall|a: int| 0 <= a < nodes.len() implies name_in(n.pairs, #[trigger] nodes[a].id, other)
        == n.used[a] by {
        assert(n.pairs[a].0 == nodes[a].id);
        assert forall|b: int| 0 <= b < a implies (#[trigger] n.pairs[b]).0 != n.pairs[a].0 by {
            assert(nodes[b].id != nodes[a].id);
        }
        lemma_name_in(n.pairs, a, other);
    }
    assert(name_in(n.pairs, nodes[i].id, other) == n.used[i]);
    assert(name_in(n.pairs, nodes[j].id, other) == n.used[j]);
}

fn is_reserved(s: &str) -> (r: bool)
    ensures
        r == reserved(s@),
{
    same_text(s, "d")
        || same_text(s, "and")
        || same_text(s, "break")
        || same_text(s, "do")
        || same_text(s, "else")
        || same_text(s, "elseif")
        || same_text(s, "end")
        || same_text(s, "false")
        || same_text(s, "for")
        || same_text(s, "function")
        || same_text(s, "goto")
        || same_text(s, "if")
        || same_text(s, "in")
        || same_text(s, "local")
        || same_text(s, "nil")
        || same_text(s, "not")
        || same_text(s, "or")
        || same_text(s, "repeat")
        || same_text(s, "return")
        || same_text(s, "then")
        || same_text(s, "true")
        || same_text(s, "until")
        || same_text(s, "while")
}

/// A name that is not in `used`, made of `plain`.
fn unused_name(used: &Vec<String>, plain: String) -> (r: String)
    requires
        is_ident(plain@),
    ensures
        r@ == free_name(texts_view(used@), plain@),
{
    let ghost us = texts_view(used@);
    if !lists_text(used, &plain) && !is_reserved(&plain) {
        return plain;
    }
    let stem = join(&plain, "_");
    let mut n: u128 = used.len() as u128;
    loop
        invariant
            us == texts_view(used@),
            us.len() == used.len(),
            stem@ == plain@ + "_"@,
            us.len() <= n <= 2 * us.len(),
            us.contains(plain@) || reserved(plain@),
            forall|j: nat| us.len() <= j < n ==> us.contains(#[trigger] numbered(plain@, j)),
        decreases 2 * us.len() - n,
    {
        let name = join(&stem, &decimal_wide(n));
        assert(name@ == numbered(plain@, n as nat));
        if !lists_text(used, &name) {
            proof {
                assert(counted(us, plain@, us.len(), n as nat));
                lemma_counted_unique(us, plain@, us.len(), n as nat);
            }
            return name;
        }
        proof {
            lemma_taken_bounded(us, plain@, us.len(), (n + 1) as nat);
        }
        n = n + 1;
    }
}

pub open spec fn named_bones(s: Seq<(BoneId, String)>) -> Seq<(BoneId, Seq<char>)> {
    Seq::new(s.len(), |i: int| (s[i].0, s[i].1@))
}

fn find_bone_name<'a>(bones: &'a Vec<(BoneId, String)>, id: BoneId) -> (r: Option<&'a str>)
    ensures
        text_of(r) == bone_in(named_bones(bones@), id),
{
    let ghost all = named_bones(bones@);
    let mut i: usize = 0;
    assert(all.skip(0) =~= all);
    while i < bones.len()
        invariant
            i <= bones@.len(),
            all == named_bones(bones@),
            bone_in(all, id) == bone_in(all.skip(i as int), id),
        decreases bones.len() - i,
    {
        assert(all.skip(i as int)[0] == (bones@[i as int].0, bones@[i as int].1@));
        assert(all.skip(i as int).skip(1) =~= all.skip(i as int + 1));
        if bones[i].0 == id {
            return Some(bones[i].1.as_str());
        }
        i = i + 1;
    }
    None
}

fn find_name<'a>(pairs: &'a Vec<(String, String)>, id: &str, other: &'a str) -> (r: &'a str)
    ensures
        r@ == name_in(crate::driver::pairs_view(pairs@), id@, other@),
{
    let ghost all = crate::driver::pairs_view(pairs@);
    let mut i: usize = 0;
    assert(all.skip(0) =~= all);
    while i < pairs.len()
        invariant
            i <= pairs@.len(),
            all == crate::driver::pairs_view(pairs@),
            name_in(all, id@, other@) == name_in(all.skip(i as int), id@, other@),
        decreases pairs.len() - i,
    {
        assert(all.skip(i as int)[0] == (pairs@[i as int].0@, pairs@[i as int].1@));
        assert(all.skip(i as int).skip(1) =~= all.skip(i as int + 1));
        if same_text(&pairs[i].0, id) {
            return pairs[i].1.as_str();
        }
        i = i + 1;
    }
    other
}

/// A name for each node.
fn names_of(driver: &Driver) -> (r: Vec<(String, String)>)
    ensures
        crate::driver::pairs_view(r@) == name_nodes(driver@.nodes, driver@.nodes.len()).pairs,
{
    let ghost nodes = driver@.nodes;
    let mut used: Vec<String> = Vec::new();
    let mut pairs: Vec<(String, String)> = Vec::new();
    let mut i: usize = 0;
    assert(texts_view(used@) =~= Seq::empty());
    assert(crate::driver::pairs_view(pairs@) =~= Seq::empty());
    while i < driver.nodes.len()
        invariant
            i <= driver.nodes@.len(),
            nodes == driver@.nodes,
            texts_view(used@) == name_nodes(nodes, i as nat).used,
            crate::driver::pairs_view(pairs@) == name_nodes(nodes, i as nat).pairs,
        decreases driver.nodes.len() - i,
    {
        let n = &driver.nodes[i];
        assert(nodes[i as int] == n@);
        let plain = lua_ident(&n.id);
        let ghost u0 = used@;
        let ghost p0 = pairs@;
        proof {
            law_ident_valid(n.id@);
        }
        let name = unused_name(&used, plain);
        used.push(name.clone());
        assert(texts_view(used@) =~= texts_view(u0).push(name@));
        pairs.push((n.id.clone(), name));
        assert(crate::driver::pairs_view(pairs@) =~= crate::driver::pairs_view(p0).push(
            (n.id@, name@),
        ));
        i = i + 1;
    }
    pairs
}

/// Appends the lines of node `n`.
fn add_node_lines<F: Fn(Scalar) -> String>(
    out: &mut String,
    bones: &Vec<(BoneId, String)>,
    pairs: &Vec<(String, String)>,
    n: &DriverNode,
    show: &F,
)
    requires
        forall|x: Scalar| call_requires(*show, (x,)),
    ensures
        forall|m: spec_fn(Scalar) -> Seq<char>|
            prints(*show, m) ==> final(out)@ == old(out)@ + #[trigger] node_lines(
                m,
                named_bones(bones@),
                crate::driver::pairs_view(pairs@),
                n@,
            ),
{
    let ghost before = out@;
    let bone_name = match n.bone {
        Some(id) => find_bone_name(bones, id),
        None => None,
    };
    assert(text_of(bone_name) == node_bone_name(named_bones(bones@), n@));
    let mut line = String::new();
    if n.kind == DriverNodeKind::MorphSet {
        line.append("-- morph_set: bind the mesh in the node editor if needed\n");
    }
    let ghost note = line@;
    line.append("local ");
    let name = find_name(pairs, &n.id, "n");
    line.append(name);
    line.append(" = d:add(");
    line.append(&lua_str(n.kind.slug()));
    line.append(", ");
    let opts = node_opts(n, bone_name, show);
    line.append(&opts);
    line.append(")\n");
    out.append(&line);
    assert forall|m: spec_fn(Scalar) -> Seq<char>| prints(*show, m) implies line@
        == #[trigger] node_lines(
        m,
        named_bones(bones@),
        crate::driver::pairs_view(pairs@),
        n@,
    ) by {
        let o = opts_text(m, n@, text_of(bone_name));
        assert(opts@ == o);
        if n.kind == DriverNodeKind::MorphSet {
            assert(note =~= "-- morph_set: bind the mesh in the node editor if needed\n"@);
        } else {
            assert(note =~= Seq::empty());
        }
    }
}

/// Script snippet that recreates `driver` (paste into a setup script). `show`
/// prints numbers.
pub fn driver_to_lua<F: Fn(Scalar) -> String>(
    driver: &Driver,
    bones: &Vec<(BoneId, String)>,
    show: &F,
) -> (r: String)
    requires
        forall|x: Scalar| call_requires(*show, (x,)),
    ensures
        forall|m: spec_fn(Scalar) -> Seq<char>|
            prints(*show, m) ==> r@ == #[trigger] driver_script(m, named_bones(bones@), driver@),
{
    let ghost d = driver@;
    let ghost bs = named_bones(bones@);
    let mut out = String::new();
    out.append("local d = rig.create_driver(");
    out.append(&lua_str(&driver.name));
    out.append(")\n");
    if !driver.enabled {
        out.append("d:enable(false)\n");
    }
    assert(out@ =~= driver_head(d));
    let pairs = names_of(driver);
    let ghost ps = crate::driver::pairs_view(pairs@);
    let mut i: usize = 0;
    while i < driver.nodes.len()
        invariant
            i <= driver.nodes@.len(),
            d == driver@,
            bs == named_bones(bones@),
            ps == crate::driver::pairs_view(pairs@),
            ps == name_nodes(d.nodes, d.nodes.len()).pairs,
            forall|x: Scalar| call_requires(*show, (x,)),
            forall|m: spec_fn(Scalar) -> Seq<char>|
                prints(*show, m) ==> out@ == #[trigger] with_nodes(m, bs, d, i as nat),
        decreases driver.nodes.len() - i,
    {
        let ghost before = out@;
        assert(d.nodes[i as int] == driver.nodes@[i as int]@);
        add_node_lines(&mut out, bones, &pairs, &driver.nodes[i], show);
        let ghost i0 = i as nat;
        i = i + 1;
        assert forall|m: spec_fn(Scalar) -> Seq<char>| prints(*show, m) implies out@
            == #[trigger] with_nodes(m, bs, d, i as nat) by {
            assert(before == with_nodes(m, bs, d, i0));
            let l = node_lines(m, bs, ps, d.nodes[i0 as int]);
            assert((i as nat - 1) as nat == i0);
        }
    }
    assert forall|m: spec_fn(Scalar) -> Seq<char>| prints(*show, m) implies out@
        == #[trigger] with_links(m, bs, d, 0) by {
        assert(out@ == with_nodes(m, bs, d, i as nat));
    }
    let mut k: usize = 0;
    while k < driver.space.links.len()
        invariant
            k <= driver.space.links@.len(),
            d == driver@,
            ps == crate::driver::pairs_view(pairs@),
            ps == name_nodes(d.nodes, d.nodes.len()).pairs,
            forall|m: spec_fn(Scalar) -> Seq<char>|
                prints(*show, m) ==> out@ == #[trigger] with_links(m, bs, d, k as nat),
        decreases driver.space.links.len() - k,
    {
        let ghost before = out@;
        let l = &driver.space.links[k];
        assert(d.space.links[k as int] == l@);
        let from = find_name(&pairs, &l.from_node, &l.from_node);
        let to = find_name(&pairs, &l.to_node, &l.to_node);
        let mut line = String::new();
        line.append("d:link(");
        line.append(from);
        line.append(", ");
        line.append(&lua_str(&l.from_port));
        line.append(", ");
        line.append(to);
        line.append(", ");
        line.append(&lua_str(&l.to_port));
        line.append(")\n");
        assert(line@ =~= link_line(ps, l@));
        out.append(&line);
        let ghost k0 = k as nat;
        k = k + 1;
        assert forall|m: spec_fn(Scalar) -> Seq<char>| prints(*show, m) implies out@
            == #[trigger] with_links(m, bs, d, k as nat) by {
            assert(before == with_links(m, bs, d, k0));
            assert((k as nat - 1) as nat == k0);
        }
    }
    assert forall|m: spec_fn(Scalar) -> Seq<char>| prints(*show, m) implies out@
        == #[trigger] driver_script(m, bs, d) by {
        assert(out@ == with_links(m, bs, d, k as nat));
    }
    out
}

} // verus!
