//! Text of setup scripts: matching bone names, writing drivers down as script,
//! and reading the command line.

use vstd::prelude::*;
use crate::driver::{DriverNode, DriverNodeView};
use crate::geom::Scalar;
use crate::kinds::DriverNodeKind;
use crate::text::{chars_of, decimal, decimal_of, string_of};
use vstd::utf8::{char_u32_cast, encode_scalar, encode_utf8, encode_utf8_decode_utf8};

verus! {

/// Text `s` matches pattern `p`, both as bytes: `*` stands for any run of
/// bytes, `?` for any one byte, every other byte for itself.
pub open spec fn glob(p: Seq<u8>, s: Seq<u8>) -> bool
    decreases p.len() + s.len(),
{
    if p.len() == 0 {
        s.len() == 0
    } else if p[0] == 42u8 {
        glob(p.skip(1), s) || (s.len() > 0 && glob(p, s.skip(1)))
    } else if p[0] == 63u8 {
        s.len() > 0 && glob(p.skip(1), s.skip(1))
    } else {
        s.len() > 0 && s[0] == p[0] && glob(p.skip(1), s.skip(1))
    }
}

/// Text `s` matches pattern `p`, byte by byte of their UTF-8 forms.
pub open spec fn glob_text(p: Seq<char>, s: Seq<char>) -> bool {
    glob(encode_utf8(p), encode_utf8(s))
}

fn glob_from(p: &[u8], i: usize, s: &[u8], j: usize) -> (r: bool)
    requires
        i <= p@.len(),
        j <= s@.len(),
    ensures
        r == glob(p@.skip(i as int), s@.skip(j as int)),
    decreases p@.len() - i + s@.len() - j,
{
    let ghost ps = p@.skip(i as int);
    let ghost ss = s@.skip(j as int);
    if i == p.len() {
        return j == s.len();
    }
    assert(ps.skip(1) =~= p@.skip(i as int + 1));
    assert(ps[0] == p@[i as int]);
    if j < s.len() {
        assert(ss.skip(1) =~= s@.skip(j as int + 1));
        assert(ss[0] == s@[j as int]);
    }
    if p[i] == 42u8 {
        if glob_from(p, i + 1, s, j) {
            return true;
        }
        j < s.len() && glob_from(p, i, s, j + 1)
    } else if p[i] == 63u8 {
        j < s.len() && glob_from(p, i + 1, s, j + 1)
    } else {
        j < s.len() && s[j] == p[i] && glob_from(p, i + 1, s, j + 1)
    }
}

/// Whether `s` matches the pattern `pat` (`*` and `?` as usual).
pub fn glob_match(pat: &str, s: &str) -> (r: bool)
    ensures
        r == glob_text(pat@, s@),
{
    let p = pat.as_bytes();
    let t = s.as_bytes();
    proof {
        assert(p@.skip(0) =~= p@);
        assert(t@.skip(0) =~= t@);
    }
    glob_from(p, 0, t, 0)
}

/// A lone star matches everything.
pub proof fn law_glob_star(s: Seq<u8>)
    ensures
        glob(seq![42u8], s),
    decreases s.len(),
{
    let p = seq![42u8];
    assert(p.skip(1) =~= Seq::<u8>::empty());
    if s.len() > 0 {
        law_glob_star(s.skip(1));
    } else {
        assert(glob(p.skip(1), s));
    }
}

/// A pattern without `*` and `?` matches itself and nothing else.
pub proof fn law_glob_literal(p: Seq<u8>, s: Seq<u8>)
    requires
        forall|i: int| 0 <= i < p.len() ==> #[trigger] p[i] != 42u8 && p[i] != 63u8,
    ensures
        glob(p, s) <==> p == s,
    decreases p.len(),
{
    if p.len() == 0 {
        if s.len() == 0 {
            assert(p =~= s);
        }
    } else {
        assert(p[0] != 42u8 && p[0] != 63u8);
        let q = p.skip(1);
        assert forall|i: int| 0 <= i < q.len() implies #[trigger] q[i] != 42u8 && q[i] != 63u8 by {
            assert(q[i] == p[i + 1]);
        }
        if s.len() > 0 {
            law_glob_literal(q, s.skip(1));
            if p[0] == s[0] && q == s.skip(1) {
                assert(p =~= seq![p[0]] + q);
                assert(s =~= seq![s[0]] + s.skip(1));
            }
        }
    }
}

/// Patterns that match two byte strings match them one behind the other when
/// they are joined.
pub proof fn law_glob_join(p: Seq<u8>, q: Seq<u8>, s: Seq<u8>, t: Seq<u8>)
    requires
        glob(p, s),
        glob(q, t),
    ensures
        glob(p + q, s + t),
    decreases p.len() + s.len(),
{
    if p.len() == 0 {
        assert(p + q =~= q);
        assert(s + t =~= t);
    } else {
        assert((p + q).skip(1) =~= p.skip(1) + q);
        if s.len() > 0 {
            assert((s + t).skip(1) =~= s.skip(1) + t);
        }
        if p[0] == 42u8 {
            if glob(p.skip(1), s) {
                law_glob_join(p.skip(1), q, s, t);
            } else {
                law_glob_join(p, q, s.skip(1), t);
            }
        } else {
            law_glob_join(p.skip(1), q, s.skip(1), t);
        }
    }
}

/// Every pattern matches itself.
pub proof fn law_glob_self(p: Seq<u8>)
    ensures
        glob(p, p),
    decreases p.len(),
{
    if p.len() > 0 {
        law_glob_self(p.skip(1));
        if p[0] == 42u8 {
            assert(glob(p, p.skip(1)));
        }
    }
}

/// The bytes of two texts, one behind the other, are those of the joined text.
proof fn lemma_encode_join(a: Seq<char>, b: Seq<char>)
    ensures
        encode_utf8(a + b) == encode_utf8(a) + encode_utf8(b),
    decreases a.len(),
{
    if a.len() == 0 {
        assert(a + b =~= b);
        assert(encode_utf8(a) + encode_utf8(b) =~= encode_utf8(b));
    } else {
        lemma_encode_join(a.drop_first(), b);
        assert((a + b).drop_first() =~= a.drop_first() + b);
        assert(encode_utf8(a + b) =~= encode_utf8(a) + encode_utf8(b));
    }
}

/// Beyond ASCII every byte has its highest bit set.
proof fn lemma_high_bytes(x: u8)
    ensures
        0x80u8 | x >= 0x80,
        0xC0u8 | x >= 0x80,
        0xE0u8 | x >= 0x80,
        0xF0u8 | x >= 0x80,
{
    assert(0x80u8 | x >= 0x80 && 0xC0u8 | x >= 0x80 && 0xE0u8 | x >= 0x80 && 0xF0u8 | x >= 0x80)
        by (bit_vector);
}

/// Only a character of ASCII gives a byte below 128, and gives itself.
proof fn lemma_low_byte(c: char, i: int)
    requires
        0 <= i < encode_scalar(c as u32).len(),
        encode_scalar(c as u32)[i] < 0x80,
    ensures
        encode_scalar(c as u32)[i] as u32 == c as u32,
{
    let v = c as u32;
    if v <= 0x7F {
        assert((v & 0x7F) as u8 as u32 == v) by (bit_vector)
            requires
                v <= 0x7Fu32,
        ;
    } else {
        lemma_high_bytes(((v >> 6) & 0x1F) as u8);
        lemma_high_bytes(((v >> 12) & 0x0F) as u8);
        lemma_high_bytes(((v >> 18) & 0x7) as u8);
        lemma_high_bytes((v & 0x3F) as u8);
        lemma_high_bytes(((v >> 6) & 0x3F) as u8);
        lemma_high_bytes(((v >> 12) & 0x3F) as u8);
    }
}

/// Where a text holds no `b`, an ASCII character, neither do its bytes.
proof fn lemma_byte_from(s: Seq<char>, b: u8, i: int)
    requires
        b < 0x80,
        forall|j: int| 0 <= j < s.len() ==> #[trigger] s[j] as u32 != b as u32,
        0 <= i < encode_utf8(s).len(),
    ensures
        encode_utf8(s)[i] != b,
    decreases s.len(),
{
    let head = encode_scalar(s[0] as u32);
    assert(s[0] as u32 != b as u32);
    if i < head.len() {
        if head[i] == b {
            lemma_low_byte(s[0], i);
        }
    } else {
        let t = s.drop_first();
        assert forall|j: int| 0 <= j < t.len() implies #[trigger] t[j] as u32 != b as u32 by {
            assert(t[j] == s[j + 1]);
        }
        lemma_byte_from(t, b, i - head.len());
    }
}

/// Of texts: patterns that match two of them match both one behind the other
/// when they are joined; every pattern matches itself; one without `*` and `?`
/// matches nothing else.
pub proof fn law_glob_text(p: Seq<char>, q: Seq<char>, s: Seq<char>, t: Seq<char>)
    ensures
        glob_text(p, s) && glob_text(q, t) ==> glob_text(p + q, s + t),
        glob_text(p, p),
        !p.contains('*') && !p.contains('?') ==> (glob_text(p, s) <==> p == s),
{
    lemma_encode_join(p, q);
    lemma_encode_join(s, t);
    if glob_text(p, s) && glob_text(q, t) {
        law_glob_join(encode_utf8(p), encode_utf8(q), encode_utf8(s), encode_utf8(t));
    }
    law_glob_self(encode_utf8(p));
    if !p.contains('*') && !p.contains('?') {
        let b = encode_utf8(p);
        assert forall|i: int| 0 <= i < b.len() implies #[trigger] b[i] != 42u8 && b[i] != 63u8 by {
            assert('*' as u32 == 42 && '?' as u32 == 63);
            assert forall|j: int| 0 <= j < p.len() implies #[trigger] p[j] as u32 != 42u32 && p[j] as u32
                != 63u32 by {
                let c = p[j];
                assert(p.contains(c));
                if c as u32 == 42u32 {
                    char_u32_cast(c, 42u32);
                    char_u32_cast('*', 42u32);
                }
                if c as u32 == 63u32 {
                    char_u32_cast(c, 63u32);
                    char_u32_cast('?', 63u32);
                }
            }
            lemma_byte_from(p, 42u8, i);
            lemma_byte_from(p, 63u8, i);
        }
        law_glob_literal(b, encode_utf8(s));
        encode_utf8_decode_utf8(p);
        encode_utf8_decode_utf8(s);
    }
}

/// A character inside a script string.
pub open spec fn escaped_char(c: char) -> Seq<char> {
    if c == '\\' {
        seq!['\\', '\\']
    } else if c == '"' {
        seq!['\\', '"']
    } else if c == '\n' {
        seq!['\\', 'n']
    } else if c == '\r' {
        seq!['\\', 'r']
    } else {
        seq![c]
    }
}

pub open spec fn escaped(s: Seq<char>) -> Seq<char>
    decreases s.len(),
{
    if s.len() == 0 {
        Seq::empty()
    } else {
        escaped(s.drop_last()) + escaped_char(s.last())
    }
}

/// `s` as a string literal of a script.
pub open spec fn lua_quoted(s: Seq<char>) -> Seq<char> {
    seq!['"'] + escaped(s) + seq!['"']
}

/// What the inside of a string literal stands for.
pub open spec fn unescaped(s: Seq<char>) -> Seq<char>
    decreases s.len(),
{
    if s.len() == 0 {
        Seq::empty()
    } else if s[0] == '\\' && s.len() > 1 {
        let c = if s[1] == 'n' {
            '\n'
        } else if s[1] == 'r' {
            '\r'
        } else {
            s[1]
        };
        seq![c] + unescaped(s.skip(2))
    } else {
        seq![s[0]] + unescaped(s.skip(1))
    }
}

/// `s` as a string literal.
pub fn lua_str(s: &str) -> (r: String)
    ensures
        r@ == lua_quoted(s@),
{
    let cs = chars_of(s);
    let mut out: Vec<char> = Vec::new();
    out.push('"');
    let mut i: usize = 0;
    assert(out@ =~= seq!['"'] + escaped(cs@.take(0)));
    while i < cs.len()
        invariant
            i <= cs@.len(),
            out@ == seq!['"'] + escaped(cs@.take(i as int)),
        decreases cs.len() - i,
    {
        let c = cs[i];
        assert(cs@.take(i as int + 1).drop_last() =~= cs@.take(i as int));
        if c == '\\' {
            out.push('\\');
            out.push('\\');
        } else if c == '"' {
            out.push('\\');
            out.push('"');
        } else if c == '\n' {
            out.push('\\');
            out.push('n');
        } else if c == '\r' {
            out.push('\\');
            out.push('r');
        } else {
            out.push(c);
        }
        assert(out@ =~= seq!['"'] + (escaped(cs@.take(i as int)) + escaped_char(c)));
        i = i + 1;
    }
    assert(cs@.take(i as int) =~= cs@);
    out.push('"');
    assert(out@ =~= lua_quoted(s@));
    string_of(&out)
}

/// What a string literal written by `lua_str` stands for is the text it was
/// written for.
pub proof fn law_quote_reads_back(s: Seq<char>)
    ensures
        lua_quoted(s).len() >= 2,
        unescaped(lua_quoted(s).subrange(1, lua_quoted(s).len() - 1)) == s,
{
    assert(lua_quoted(s).subrange(1, lua_quoted(s).len() - 1) =~= escaped(s));
    lemma_unescape(s, Seq::empty());
    assert(escaped(s) + escaped(Seq::empty()) =~= escaped(s));
    assert(s + Seq::<char>::empty() =~= s);
    lemma_unescape_empty();
}

proof fn lemma_unescape_empty()
    ensures
        unescaped(escaped(Seq::<char>::empty())) == Seq::<char>::empty(),
{
}

/// Reading goes character by character.
proof fn lemma_unescape(s: Seq<char>, t: Seq<char>)
    ensures
        unescaped(escaped(s) + escaped(t)) == s + unescaped(escaped(t)),
    decreases s.len(),
{
    if s.len() == 0 {
        assert(escaped(s) + escaped(t) =~= escaped(t));
        assert(s + unescaped(escaped(t)) =~= unescaped(escaped(t)));
    } else {
        let c = s.last();
        let u = seq![c] + t;
        lemma_escaped_cons(c, t);
        assert(escaped(s) + escaped(t) =~= escaped(s.drop_last()) + (escaped_char(c) + escaped(t)));
        lemma_unescape(s.drop_last(), u);
        assert(escaped(s) + escaped(t) == escaped(s.drop_last()) + escaped(u));
        let e = escaped_char(c) + escaped(t);
        assert(unescaped(e) == seq![c] + unescaped(escaped(t))) by {
            if escaped_char(c).len() == 2 {
                assert(e.skip(2) =~= escaped(t));
            } else {
                assert(e.skip(1) =~= escaped(t));
            }
        }
        assert(s.drop_last() + (seq![c] + unescaped(escaped(t))) =~= s + unescaped(escaped(t)));
    }
}

proof fn lemma_escaped_cons(c: char, t: Seq<char>)
    ensures
        escaped(seq![c] + t) == escaped_char(c) + escaped(t),
    decreases t.len(),
{
    let u = seq![c] + t;
    if t.len() == 0 {
        assert(u.drop_last() =~= Seq::<char>::empty());
        assert(escaped(u.drop_last()) =~= Seq::<char>::empty());
        assert(escaped(u) =~= escaped_char(c) + escaped(t));
    } else {
        assert(u.drop_last() =~= seq![c] + t.drop_last());
        assert(u.last() == t.last());
        lemma_escaped_cons(c, t.drop_last());
        assert(escaped(u) =~= escaped_char(c) + escaped(t));
    }
}

pub open spec fn ascii_letter(c: char) -> bool {
    ('a' <= c <= 'z') || ('A' <= c <= 'Z')
}

pub open spec fn ascii_digit(c: char) -> bool {
    '0' <= c <= '9'
}

/// `s` has the shape of a name in a script.
pub open spec fn is_ident(s: Seq<char>) -> bool {
    &&& s.len() > 0
    &&& ascii_letter(s[0]) || s[0] == '_'
    &&& forall|i: int|
        0 <= i < s.len() ==> ascii_letter(#[trigger] s[i]) || ascii_digit(s[i]) || s[i] == '_'
}

/// Letters and digits stay, everything else becomes an underscore.
pub open spec fn ident_char(c: char) -> char {
    if ascii_letter(c) || ascii_digit(c) {
        c
    } else {
        '_'
    }
}

/// The name under which a script keeps the node `id`.
pub open spec fn ident_of(id: Seq<char>) -> Seq<char> {
    if is_ident(id) {
        id
    } else {
        let t = Seq::new(id.len(), |i: int| ident_char(id[i]));
        if t.len() == 0 || ascii_digit(t[0]) {
            seq!['_'] + t
        } else {
            t
        }
    }
}

/// Whatever the id, the name made of it begins with a letter or an underscore
/// and holds only letters, digits and underscores.
pub proof fn law_ident_valid(id: Seq<char>)
    ensures
        is_ident(ident_of(id)),
{
    let r = ident_of(id);
    if !is_ident(id) {
        let t = Seq::new(id.len(), |i: int| ident_char(id[i]));
        assert forall|i: int| 0 <= i < r.len() implies ascii_letter(#[trigger] r[i]) || ascii_digit(
            r[i],
        ) || r[i] == '_' by {
            if t.len() == 0 || ascii_digit(t[0]) {
                if i > 0 {
                    assert(r[i] == t[i - 1]);
                }
            } else {
                assert(r[i] == t[i]);
            }
        }
    }
}

fn letter(c: char) -> (r: bool)
    ensures
        r == ascii_letter(c),
{
    ('a' <= c && c <= 'z') || ('A' <= c && c <= 'Z')
}

fn number(c: char) -> (r: bool)
    ensures
        r == ascii_digit(c),
{
    '0' <= c && c <= '9'
}

/// The name under which a script keeps the node `id`.
pub fn lua_ident(id: &str) -> (r: String)
    ensures
        r@ == ident_of(id@),
{
    let cs = chars_of(id);
    let mut good = cs.len() > 0 && (letter(cs[0]) || cs[0] == '_');
    let mut t: Vec<char> = Vec::new();
    let mut i: usize = 0;
    while i < cs.len()
        invariant
            i <= cs@.len(),
            t@ == Seq::new(i as nat, |j: int| ident_char(cs@[j])),
            good == (cs@.len() > 0 && (ascii_letter(cs@[0]) || cs@[0] == '_') && forall|j: int|
                0 <= j < i ==> ascii_letter(#[trigger] cs@[j]) || ascii_digit(cs@[j]) || cs@[j]
                    == '_'),
        decreases cs.len() - i,
    {
        let c = cs[i];
        let plain = letter(c) || number(c);
        if !(plain || c == '_') {
            good = false;
        }
        let ghost before = t@;
        t.push(if plain {
            c
        } else {
            '_'
        });
        assert(t@ =~= Seq::new((i + 1) as nat, |j: int| ident_char(cs@[j])));
        i = i + 1;
    }
    if good {
        return id.to_owned();
    }
    if t.len() == 0 || number(t[0]) {
        let ghost before = t@;
        t.insert(0, '_');
        assert(t@ =~= seq!['_'] + before);
    }
    string_of(&t)
}

/// `show` prints as `m` says.
pub open spec fn prints<F: Fn(Scalar) -> String>(show: F, m: spec_fn(Scalar) -> Seq<char>) -> bool {
    forall|x: Scalar, out: String| #[trigger] call_ensures(show, (x,), out) ==> out@ == m(x)
}

/// The parameters of a node, named as scripts name them.
pub open spec fn param_names(kind: DriverNodeKind) -> Seq<(Seq<char>, int)> {
    match kind {
        DriverNodeKind::Float => seq![("value"@, 0int)],
        DriverNodeKind::Vec3 | DriverNodeKind::QuatEuler => seq![
            ("x"@, 0int),
            ("y"@, 1int),
            ("z"@, 2int),
        ],
        DriverNodeKind::Remap => seq![("from"@, 0int), ("to"@, 1int)],
        DriverNodeKind::MapRange => seq![
            ("in_from"@, 0int),
            ("in_to"@, 1int),
            ("out_from"@, 2int),
            ("out_to"@, 3int),
        ],
        DriverNodeKind::Clamp => seq![("min"@, 0int), ("max"@, 1int)],
        DriverNodeKind::QuatScale => seq![("t"@, 0int)],
        _ => Seq::empty(),
    }
}

/// The first `k` parameters of `n`, each after a comma.
pub open spec fn params_text(
    m: spec_fn(Scalar) -> Seq<char>,
    n: DriverNodeView,
    k: nat,
) -> Seq<char>
    decreases k,
{
    if k == 0 {
        Seq::empty()
    } else {
        let p = param_names(n.kind)[k - 1];
        params_text(m, n, (k - 1) as nat) + ", "@ + p.0 + " = "@ + m(n.floats[p.1])
    }
}

/// Where a node stands and which bone it names.
pub open spec fn head_text(
    m: spec_fn(Scalar) -> Seq<char>,
    n: DriverNodeView,
    bone: Option<Seq<char>>,
) -> Seq<char> {
    let pos = "{ pos = {"@ + m(n.pos.x) + ", "@ + m(n.pos.y) + "}"@;
    match bone {
        Some(name) => pos + ", bone = "@ + lua_quoted(name) + ", space = "@ + lua_quoted(
            n.space.slug_of(),
        ),
        None => pos,
    }
}

/// The options of a node in a script: where it stands, the bone it names, its
/// parameters.
pub open spec fn opts_text(
    m: spec_fn(Scalar) -> Seq<char>,
    n: DriverNodeView,
    bone: Option<Seq<char>>,
) -> Seq<char> {
    let params = head_text(m, n, bone) + params_text(m, n, param_names(n.kind).len());
    let all = if n.kind == DriverNodeKind::MorphSet {
        params + ", shape = "@ + decimal_of(n.shape as nat)
    } else {
        params
    };
    all + " }"@
}

pub open spec fn text_of(s: Option<&str>) -> Option<Seq<char>> {
    match s {
        Some(t) => Some(t@),
        None => None,
    }
}

pub open spec fn params_view(s: Seq<(&'static str, usize)>) -> Seq<(Seq<char>, int)> {
    Seq::new(s.len(), |i: int| (s[i].0@, s[i].1 as int))
}

/// The parameters of a kind, named as scripts name them, with their places.
fn params_of(kind: DriverNodeKind) -> (r: Vec<(&'static str, usize)>)
    ensures
        params_view(r@) == param_names(kind),
        forall|i: int| 0 <= i < r@.len() ==> (#[trigger] r@[i]).1 < 4,
{
    let mut r: Vec<(&'static str, usize)> = Vec::new();
    match kind {
        DriverNodeKind::Float => {
            r.push(("value", 0));
        },
        DriverNodeKind::Vec3 | DriverNodeKind::QuatEuler => {
            r.push(("x", 0));
            r.push(("y", 1));
            r.push(("z", 2));
        },
        DriverNodeKind::Remap => {
            r.push(("from", 0));
            r.push(("to", 1));
        },
        DriverNodeKind::MapRange => {
            r.push(("in_from", 0));
            r.push(("in_to", 1));
            r.push(("out_from", 2));
            r.push(("out_to", 3));
        },
        DriverNodeKind::Clamp => {
            r.push(("min", 0));
            r.push(("max", 1));
        },
        DriverNodeKind::QuatScale => {
            r.push(("t", 0));
        },
        _ => {},
    }
    assert(params_view(r@) =~= param_names(kind));
    r
}

/// Where a node stands and which bone it names.
fn node_head<F: Fn(Scalar) -> String>(n: &DriverNode, bone_name: Option<&str>, show: &F) -> (r: String)
    requires
        forall|x: Scalar| call_requires(*show, (x,)),
    ensures
        forall|m: spec_fn(Scalar) -> Seq<char>|
            prints(*show, m) ==> r@ == #[trigger] head_text(m, n@, text_of(bone_name)),
{
    let mut out = String::new();
    out.append("{ pos = {");
    let x = (*show)(n.pos.x);
    out.append(&x);
    out.append(", ");
    let y = (*show)(n.pos.y);
    out.append(&y);
    out.append("}");
    assert(call_ensures(*show, (n.pos.x,), x));
    assert(call_ensures(*show, (n.pos.y,), y));
    assert(out@ =~= "{ pos = {"@ + x@ + ", "@ + y@ + "}"@);
    if let Some(name) = bone_name {
        out.append(", bone = ");
        out.append(&lua_str(name));
        out.append(", space = ");
        out.append(&lua_str(n.space.slug()));
    }
    out
}

/// The options of a node; `bone_name` is the name of its bone, `show` prints
/// numbers.
pub fn node_opts<F: Fn(Scalar) -> String>(n: &DriverNode, bone_name: Option<&str>, show: &F) -> (r:
    String)
    requires
        forall|x: Scalar| call_requires(*show, (x,)),
    ensures
        forall|m: spec_fn(Scalar) -> Seq<char>|
            prints(*show, m) ==> r@ == #[trigger] opts_text(m, n@, text_of(bone_name)),
{
    let mut out = node_head(n, bone_name, show);
    let ghost head = out@;
    let params = params_of(n.kind);
    let ghost names = param_names(n@.kind);
    let mut k: usize = 0;
    assert forall|m: spec_fn(Scalar) -> Seq<char>| prints(*show, m) implies out@ == head
        + #[trigger] params_text(m, n@, 0) by {
        assert(head + params_text(m, n@, 0) =~= head);
    }
    while k < params.len()
        invariant
            k <= params@.len(),
            names == param_names(n@.kind),
            names == params_view(params@),
            forall|i: int| 0 <= i < params@.len() ==> (#[trigger] params@[i]).1 < 4,
            forall|x: Scalar| call_requires(*show, (x,)),
            forall|m: spec_fn(Scalar) -> Seq<char>|
                prints(*show, m) ==> out@ == head + #[trigger] params_text(m, n@, k as nat),
        decreases params.len() - k,
    {
        let ghost before = out@;
        let name = params[k].0;
        let at = params[k].1;
        assert(names[k as int] == (name@, at as int));
        out.append(", ");
        out.append(name);
        out.append(" = ");
        let x = n.floats[at];
        let t = (*show)(x);
        assert(call_ensures(*show, (x,), t));
        out.append(&t);
        let ghost k0 = k as nat;
        k = k + 1;
        assert forall|m: spec_fn(Scalar) -> Seq<char>| prints(*show, m) implies out@ == head
            + #[trigger] params_text(m, n@, k as nat) by {
            assert(before == head + params_text(m, n@, k0));
            assert((k as nat - 1) as nat == k0);
            assert(t@ == m(x));
            assert(out@ =~= head + (params_text(m, n@, k0) + ", "@ + name@ + " = "@ + m(x)));
        }
    }
    let ghost body = out@;
    if n.kind == DriverNodeKind::MorphSet {
        out.append(", shape = ");
        out.append(&decimal(n.shape as u64));
    }
    out.append(" }");
    assert forall|m: spec_fn(Scalar) -> Seq<char>| prints(*show, m) implies out@
        == #[trigger] opts_text(m, n@, text_of(bone_name)) by {
        assert(head == head_text(m, n@, text_of(bone_name)));
        assert(body == head + params_text(m, n@, k as nat));
    }
    out
}

} // verus!
