//! How bit patterns order, what bounds do, what is nearest, and how whole
//! numbers are written.

use vstd::prelude::*;
use crate::bones::BoneId;
use crate::geom::Scalar;
use crate::order::{ahead_of, at_least, best_of, best_place, held_between, larger, less_than, nan, smaller};
use crate::text::{decimal_of, digit_char, lower_char, lower_of, trim_of, white};

verus! {

/// Patterns of numbers that are not negative order as whole numbers do, those of
/// negative numbers the other way round; every negative number is below every
/// other one, but for the two zeros, which are equal. What is no number is
/// neither below nor above anything.
pub proof fn law_order(a: Scalar, b: Scalar)
    ensures
        a.bits <= 0x7F80_0000 && b.bits <= 0x7F80_0000 ==> (less_than(a, b) <==> a.bits < b.bits),
        0x8000_0000 <= a.bits <= 0xFF80_0000 && 0x8000_0000 <= b.bits <= 0xFF80_0000 ==> (less_than(a, b) <==> a.bits
            > b.bits),
        0x8000_0000 < a.bits <= 0xFF80_0000 && b.bits <= 0x7F80_0000 ==> less_than(a, b) && !less_than(b, a),
        a.bits == 0x8000_0000 && b.bits == 0 ==> !less_than(a, b) && !less_than(b, a),
        0x7F80_0000 < a.bits < 0x8000_0000 || a.bits > 0xFF80_0000 ==> nan(a) && !less_than(a, b) && !less_than(b, a),
        nan(a) ==> 0x7F80_0000 < a.bits < 0x8000_0000 || a.bits > 0xFF80_0000,
        at_least(a, b) <==> !nan(a) && !nan(b) && !less_than(a, b),
{
}

/// In the total order negative patterns come first, from the largest pattern
/// down, and the others after, from the smallest up.
pub proof fn law_total(a: Scalar, b: Scalar)
    ensures
        a.bits < 0x8000_0000 && b.bits < 0x8000_0000 ==> (ahead_of(a, b) <==> a.bits < b.bits),
        a.bits >= 0x8000_0000 && b.bits >= 0x8000_0000 ==> (ahead_of(a, b) <==> a.bits > b.bits),
        a.bits >= 0x8000_0000 && b.bits < 0x8000_0000 ==> ahead_of(a, b) && !ahead_of(b, a),
        less_than(a, b) ==> ahead_of(a, b),
{
}

/// The larger of two numbers is one of them and below neither, the smaller one
/// of them and above neither; what is no number gives way.
pub proof fn law_larger(a: Scalar, b: Scalar)
    ensures
        larger(a, b) == a || larger(a, b) == b,
        smaller(a, b) == a || smaller(a, b) == b,
        !nan(a) && !nan(b) ==> !less_than(larger(a, b), a) && !less_than(larger(a, b), b),
        !nan(a) && !nan(b) ==> !less_than(a, smaller(a, b)) && !less_than(b, smaller(a, b)),
        nan(a) && !nan(b) ==> larger(a, b) == b && smaller(a, b) == b,
        nan(b) ==> larger(a, b) == a && smaller(a, b) == a,
{
}

/// What is held between two bounds lies there, and stays where it was if it lay
/// there before.
pub proof fn law_held_between(x: Scalar, lo: Scalar, hi: Scalar)
    requires
        !nan(x),
        !nan(lo),
        !nan(hi),
        !less_than(hi, lo),
    ensures
        !less_than(held_between(x, lo, hi), lo),
        !less_than(hi, held_between(x, lo, hi)),
        !less_than(x, lo) && !less_than(hi, x) ==> held_between(x, lo, hi) == x,
        less_than(x, lo) ==> held_between(x, lo, hi) == lo,
        less_than(hi, x) ==> held_between(x, lo, hi) == hi,
{
}

/// Where something is hit, something is nearest.
pub proof fn law_some_place(ts: Seq<Option<Scalar>>, i: int)
    ensures
        0 <= i < ts.len() && ts[i] is Some ==> best_place(ts) is Some,
        best_place(ts) matches Some(k) ==> 0 <= k < ts.len() && ts[k] is Some,
    decreases ts.len(),
{
    if ts.len() > 0 {
        let t = ts.drop_last();
        law_some_place(t, i);
        assert(forall|j: int| 0 <= j < t.len() ==> #[trigger] t[j] == ts[j]);
    }
}

/// A bone that is hit in front of the eye is found, or a nearer one is.
pub proof fn law_some_bone(hits: Seq<(Scalar, BoneId)>, i: int)
    ensures
        0 <= i < hits.len() && !less_than(hits[i].0, Scalar { bits: 0 }) ==> best_of(hits) is Some,
        best_of(hits) matches Some(b) ==> hits.contains(b) && !less_than(b.0, Scalar { bits: 0 }),
    decreases hits.len(),
{
    if hits.len() > 0 {
        let t = hits.drop_last();
        law_some_bone(t, i);
        assert(hits[hits.len() - 1] == hits.last());
        if best_of(t) is Some {
            let b = best_of(t)->0;
            let k = choose|k: int| 0 <= k < t.len() && t[k] == b;
            assert(hits[k] == b);
        }
    }
}

/// What a string of digits says.
pub open spec fn number_read(s: Seq<char>) -> int
    decreases s.len(),
{
    if s.len() == 0 {
        0
    } else {
        10 * number_read(s.drop_last()) + (s.last() as int - '0' as int)
    }
}

/// A whole number is written so that it reads as that number, without a zero in
/// front.
pub proof fn law_decimal(n: nat)
    ensures
        number_read(decimal_of(n)) == n,
        decimal_of(n).len() > 0,
        n > 0 ==> decimal_of(n)[0] != '0',
    decreases n,
{
    if n < 10 {
        let s = decimal_of(n);
        assert(s.drop_last() =~= Seq::empty());
        assert(number_read(s.drop_last()) == 0);
        assert(s.last() == digit_char(n as int));
    } else {
        law_decimal(n / 10);
        let t = decimal_of(n / 10);
        let s = decimal_of(n);
        assert(s.drop_last() =~= t);
        assert(s.last() == digit_char((n % 10) as int));
        assert(s[0] == t[0]);
    }
}

/// Small letters stand for large ones of ASCII, and all else for itself.
pub proof fn law_lower(c: char)
    ensures
        'A' <= c <= 'Z' ==> lower_char(c) as int == c as int + 32,
        !('A' <= c <= 'Z') ==> lower_char(c) == c,
        lower_char(lower_char(c)) == lower_char(c),
{
}

/// What is trimmed neither begins nor ends with white space, and is a part of
/// what it was trimmed from.
pub proof fn law_trimmed(s: Seq<char>)
    ensures
        trim_of(s).len() > 0 ==> !white(trim_of(s)[0]) && !white(trim_of(s).last()),
        s.len() > 0 && !white(s[0]) && !white(s.last()) ==> trim_of(s) == s,
        trim_of(s).len() <= s.len(),
        lower_of(s).len() == s.len(),
{
    lemma_front(s);
    lemma_back(crate::text::trim_front(s));
}

proof fn lemma_front(s: Seq<char>)
    ensures
        crate::text::trim_front(s).len() <= s.len(),
        crate::text::trim_front(s).len() > 0 ==> !white(crate::text::trim_front(s)[0]),
    decreases s.len(),
{
    if s.len() > 0 && white(s[0]) {
        lemma_front(s.skip(1));
    }
}

proof fn lemma_back(s: Seq<char>)
    ensures
        crate::text::trim_back(s).len() <= s.len(),
        crate::text::trim_back(s).len() > 0 ==> !white(crate::text::trim_back(s).last()) && crate::text::trim_back(
            s,
        )[0] == s[0],
    decreases s.len(),
{
    if s.len() > 0 && white(s.last()) {
        lemma_back(s.drop_last());
    }
}

/// Blanks, tabs and line ends are white, and of the rest of ASCII nothing is.
pub proof fn law_white(c: char)
    ensures
        c == ' ' || c == '\t' || c == '\n' || c == '\r' || c == '\u{B}' || c == '\u{C}' ==> white(c),
        '!' <= c <= '~' ==> !white(c),
        c == '\u{85}' || c == '\u{A0}' || c == '\u{1680}' || c == '\u{2028}' || c == '\u{2029}' || c == '\u{202F}' || c
            == '\u{205F}' || c == '\u{3000}' || '\u{2000}' <= c <= '\u{200A}' ==> white(c),
        c == '\u{200B}' || c == '\u{FEFF}' || c > '\u{3000}' ==> !white(c),
{
}

} // verus!
