//! What does not matter when the name of a node kind is read: the case of
//! letters, blanks around the name, and of what a gap inside it is made.

use vstd::prelude::*;
use crate::kinds::{kind_named, name_char, plain_name, single_underscores, spelled};
use crate::text::{lower_char, lower_of, trim_back, trim_front, trim_of, white};

verus! {

/// Reading is unmoved by a change of case first.
proof fn lemma_char_case(c: char)
    ensures
        name_char(lower_char(c)) == name_char(c),
        white(lower_char(c)) == white(c),
{
    if 'A' <= c <= 'Z' {
        let d = lower_char(c);
        assert('a' <= d <= 'z');
        assert(lower_char(d) == d);
    }
}

proof fn lemma_spelled_case(s: Seq<char>)
    ensures
        spelled(lower_of(s)) == spelled(s),
    decreases s.len(),
{
    if s.len() > 0 {
        lemma_spelled_case(s.drop_last());
        assert(lower_of(s).drop_last() =~= lower_of(s.drop_last()));
        assert(lower_of(s).last() == lower_char(s.last()));
        lemma_char_case(s.last());
    } else {
        assert(lower_of(s) =~= s);
    }
}

proof fn lemma_trim_front_case(s: Seq<char>)
    ensures
        trim_front(lower_of(s)) == lower_of(trim_front(s)),
    decreases s.len(),
{
    if s.len() > 0 {
        assert(lower_of(s)[0] == lower_char(s[0]));
        lemma_char_case(s[0]);
        assert(lower_of(s).skip(1) =~= lower_of(s.skip(1)));
        lemma_trim_front_case(s.skip(1));
    }
}

proof fn lemma_trim_back_case(s: Seq<char>)
    ensures
        trim_back(lower_of(s)) == lower_of(trim_back(s)),
    decreases s.len(),
{
    if s.len() > 0 {
        assert(lower_of(s).last() == lower_char(s.last()));
        lemma_char_case(s.last());
        assert(lower_of(s).drop_last() =~= lower_of(s.drop_last()));
        lemma_trim_back_case(s.drop_last());
    }
}

/// Two names that differ in the case of ASCII letters alone are read alike.
pub proof fn law_name_case(s: Seq<char>, t: Seq<char>)
    requires
        lower_of(s) == lower_of(t),
    ensures
        plain_name(s) == plain_name(t),
        kind_named(plain_name(s)) == kind_named(plain_name(t)),
{
    lemma_name_lowered(s);
    lemma_name_lowered(t);
}

proof fn lemma_name_lowered(s: Seq<char>)
    ensures
        plain_name(lower_of(s)) == plain_name(s),
{
    lemma_trim_front_case(s);
    lemma_trim_back_case(trim_front(s));
    lemma_spelled_case(trim_of(s));
}

pub open spec fn all_white(s: Seq<char>) -> bool {
    forall|i: int| 0 <= i < s.len() ==> white(#[trigger] s[i])
}

/// Some character of `s` is no white space.
pub open spec fn some_ink(s: Seq<char>) -> bool {
    exists|i: int| 0 <= i < s.len() && !white(#[trigger] s[i])
}

proof fn lemma_trim_front_white(a: Seq<char>, s: Seq<char>)
    requires
        all_white(a),
    ensures
        trim_front(a + s) == trim_front(s),
    decreases a.len(),
{
    if a.len() == 0 {
        assert(a + s =~= s);
    } else {
        assert((a + s).skip(1) =~= a.skip(1) + s);
        assert((a + s)[0] == a[0]);
        assert(all_white(a.skip(1))) by {
            assert forall|i: int| 0 <= i < a.skip(1).len() implies white(#[trigger] a.skip(1)[i]) by {
                assert(a.skip(1)[i] == a[i + 1]);
            }
        }
        lemma_trim_front_white(a.skip(1), s);
    }
}

proof fn lemma_trim_back_white(s: Seq<char>, b: Seq<char>)
    requires
        all_white(b),
    ensures
        trim_back(s + b) == trim_back(s),
    decreases b.len(),
{
    if b.len() == 0 {
        assert(s + b =~= s);
    } else {
        assert((s + b).drop_last() =~= s + b.drop_last());
        assert((s + b).last() == b.last());
        assert(white(b[b.len() - 1]));
        lemma_trim_back_white(s, b.drop_last());
    }
}

/// Trimming stops at the first ink, whatever follows it.
proof fn lemma_trim_front_ink(x: Seq<char>, y: Seq<char>)
    requires
        some_ink(x),
    ensures
        trim_front(x + y) == trim_front(x) + y,
        some_ink(trim_front(x)),
    decreases x.len(),
{
    let i = choose|i: int| 0 <= i < x.len() && !white(#[trigger] x[i]);
    assert((x + y)[0] == x[0]);
    if white(x[0]) {
        assert(x.skip(1)[i - 1] == x[i]);
        assert((x + y).skip(1) =~= x.skip(1) + y);
        lemma_trim_front_ink(x.skip(1), y);
    }
}

proof fn lemma_trim_back_ink(x: Seq<char>, y: Seq<char>)
    requires
        some_ink(y),
    ensures
        trim_back(x + y) == x + trim_back(y),
        some_ink(trim_back(y)),
    decreases y.len(),
{
    let i = choose|i: int| 0 <= i < y.len() && !white(#[trigger] y[i]);
    assert((x + y).last() == y.last());
    if white(y.last()) {
        assert(y.drop_last()[i] == y[i]);
        assert((x + y).drop_last() =~= x + y.drop_last());
        lemma_trim_back_ink(x, y.drop_last());
    }
}

/// A text without ink is trimmed to nothing.
proof fn lemma_trim_front_all(s: Seq<char>)
    requires
        all_white(s),
    ensures
        trim_front(s).len() == 0,
{
    lemma_trim_front_white(s, Seq::empty());
    assert(s + Seq::<char>::empty() =~= s);
}

/// White space around a name does not matter.
pub proof fn law_name_ends(a: Seq<char>, s: Seq<char>, b: Seq<char>)
    requires
        all_white(a),
        all_white(b),
    ensures
        plain_name(a + s + b) == plain_name(s),
        kind_named(plain_name(a + s + b)) == kind_named(plain_name(s)),
{
    assert(a + s + b =~= a + (s + b));
    lemma_trim_front_white(a, s + b);
    if some_ink(s) {
        lemma_trim_front_ink(s, b);
        lemma_trim_back_white(trim_front(s), b);
    } else {
        assert(all_white(s));
        lemma_trim_front_all(s);
        lemma_trim_front_white(s, b);
        lemma_trim_front_all(b);
        assert(trim_front(s) =~= trim_front(s + b));
    }
}

/// What a gap in a name can be made of.
pub open spec fn gap_char(c: char) -> bool {
    c == ' ' || c == '-' || c == '_'
}

pub open spec fn is_gap(s: Seq<char>) -> bool {
    s.len() > 0 && forall|i: int| 0 <= i < s.len() ==> gap_char(#[trigger] s[i])
}

proof fn lemma_spelled_join(a: Seq<char>, b: Seq<char>)
    ensures
        spelled(a + b) == spelled(a) + spelled(b),
    decreases b.len(),
{
    if b.len() == 0 {
        assert(a + b =~= a);
        assert(spelled(a) + spelled(b) =~= spelled(a));
    } else {
        assert((a + b).drop_last() =~= a + b.drop_last());
        lemma_spelled_join(a, b.drop_last());
        assert(spelled(a + b) =~= spelled(a) + spelled(b));
    }
}

/// A gap is read as underscores.
proof fn lemma_spelled_gap(g: Seq<char>)
    requires
        forall|i: int| 0 <= i < g.len() ==> gap_char(#[trigger] g[i]),
    ensures
        spelled(g) == Seq::new(g.len(), |i: int| '_'),
    decreases g.len(),
{
    if g.len() > 0 {
        let t = g.drop_last();
        assert forall|i: int| 0 <= i < t.len() implies gap_char(#[trigger] t[i]) by {
            assert(t[i] == g[i]);
        }
        lemma_spelled_gap(t);
        assert(gap_char(g[g.len() - 1]));
        assert(name_char(g.last()) =~= seq!['_']);
    }
    assert(spelled(g) =~= Seq::new(g.len(), |i: int| '_'));
}

/// However many underscores, one stays.
proof fn lemma_single_run(u: Seq<char>, n: nat)
    requires
        n >= 1,
    ensures
        single_underscores(u + Seq::new(n, |i: int| '_')) == single_underscores(u.push('_')),
        single_underscores(u.push('_')).len() > 0,
        single_underscores(u.push('_')).last() == '_',
    decreases n,
{
    let run = Seq::new(n, |i: int| '_');
    assert(u.push('_').drop_last() =~= u);
    if n == 1 {
        assert(u + run =~= u.push('_'));
    } else {
        lemma_single_run(u, (n - 1) as nat);
        assert((u + run).drop_last() =~= u + Seq::new((n - 1) as nat, |i: int| '_'));
        assert((u + run).last() == '_');
    }
}

/// What comes behind is shortened alike behind texts that are.
proof fn lemma_single_behind(a: Seq<char>, b: Seq<char>, v: Seq<char>)
    requires
        single_underscores(a) == single_underscores(b),
    ensures
        single_underscores(a + v) == single_underscores(b + v),
    decreases v.len(),
{
    if v.len() == 0 {
        assert(a + v =~= a);
        assert(b + v =~= b);
    } else {
        assert((a + v).drop_last() =~= a + v.drop_last());
        assert((b + v).drop_last() =~= b + v.drop_last());
        lemma_single_behind(a, b, v.drop_last());
    }
}

/// Of what and how much a gap between two parts of a name is made does not
/// matter.
pub proof fn law_name_gap(x: Seq<char>, g: Seq<char>, k: Seq<char>, y: Seq<char>)
    requires
        some_ink(x),
        some_ink(y),
        is_gap(g),
        is_gap(k),
    ensures
        plain_name(x + g + y) == plain_name(x + k + y),
        kind_named(plain_name(x + g + y)) == kind_named(plain_name(x + k + y)),
{
    lemma_gap(x, g, y);
    lemma_gap(x, k, y);
}

/// A name with a gap is read as with one underscore there.
proof fn lemma_gap(x: Seq<char>, g: Seq<char>, y: Seq<char>)
    requires
        some_ink(x),
        some_ink(y),
        is_gap(g),
    ensures
        plain_name(x + g + y) == single_underscores(
            spelled(trim_front(x)).push('_') + spelled(trim_back(y)),
        ),
{
    let f = trim_front(x);
    let b = trim_back(y);
    assert(x + g + y =~= x + (g + y));
    lemma_trim_front_ink(x, g + y);
    assert(f + (g + y) =~= (f + g) + y);
    lemma_trim_back_ink(f + g, y);
    assert(trim_of(x + g + y) == f + g + b);
    lemma_spelled_join(f + g, b);
    lemma_spelled_join(f, g);
    lemma_spelled_gap(g);
    lemma_single_run(spelled(f), g.len());
    lemma_single_behind(spelled(f) + spelled(g), spelled(f).push('_'), spelled(b));
}

} // verus!
