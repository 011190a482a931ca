//! Triangles of a mesh: which of its faces are sound, which vertices are
//! neighbours, and which face a ray hits first.

use vstd::prelude::*;
use crate::geom::{Scalar, BITS_ZERO};
use crate::order::{all_numbers, at_least, less_than, nan};

verus! {

/// A face, by the places of its corners.
#[derive(Clone, Copy, Debug, PartialEq, Eq, Structural)]
pub struct Face {
    pub a: usize,
    pub b: usize,
    pub c: usize,
}

/// Face number `t` of an index list.
pub open spec fn face_at(indices: Seq<u32>, t: int) -> Face {
    Face {
        a: indices[3 * t] as usize,
        b: indices[3 * t + 1] as usize,
        c: indices[3 * t + 2] as usize,
    }
}

/// All corners are among `n` vertices.
pub open spec fn sound(f: Face, n: nat) -> bool {
    f.a < n && f.b < n && f.c < n
}

/// The sound faces among the first `t`.
pub open spec fn faces_of(indices: Seq<u32>, n: nat, t: int) -> Seq<Face>
    decreases t,
{
    if t <= 0 {
        Seq::empty()
    } else {
        let f = face_at(indices, t - 1);
        if sound(f, n) {
            faces_of(indices, n, t - 1).push(f)
        } else {
            faces_of(indices, n, t - 1)
        }
    }
}

/// How many whole faces an index list holds.
pub open spec fn face_count(indices: Seq<u32>) -> int {
    indices.len() as int / 3
}

/// The sound faces of a mesh with `n` vertices; indices left over at the end
/// make no face.
pub fn sound_faces(indices: &Vec<u32>, n: usize) -> (r: Vec<Face>)
    ensures
        r@ == faces_of(indices@, n as nat, face_count(indices@)),
        forall|i: int| 0 <= i < r@.len() ==> sound(#[trigger] r@[i], n as nat),
{
    let len: usize = indices.len();
    let count: usize = len / 3;
    let mut out: Vec<Face> = Vec::new();
    let mut t: usize = 0;
    while t < count
        invariant
            t <= count,
            len == indices@.len(),
            count == face_count(indices@),
            out@ == faces_of(indices@, n as nat, t as int),
            forall|i: int| 0 <= i < out@.len() ==> sound(#[trigger] out@[i], n as nat),
        decreases count - t,
    {
        assert(3 * t + 2 < len);
        let f = Face {
            a: indices[3 * t] as usize,
            b: indices[3 * t + 1] as usize,
            c: indices[3 * t + 2] as usize,
        };
        assert(f == face_at(indices@, t as int));
        let ghost o = out@;
        if f.a < n && f.b < n && f.c < n {
            out.push(f);
            assert forall|i: int| 0 <= i < out@.len() implies sound(#[trigger] out@[i], n as nat) by {
                if i < o.len() {
                    assert(out@[i] == o[i]);
                }
            }
        }
        t = t + 1;
    }
    out
}

/// `adj` with `b` among the neighbours of `a`.
pub open spec fn linked_to(adj: Seq<Seq<usize>>, a: usize, b: usize) -> Seq<Seq<usize>> {
    if adj[a as int].contains(b) {
        adj
    } else {
        adj.update(a as int, adj[a as int].push(b))
    }
}

/// `adj` with an edge from `a` to `b` and back.
pub open spec fn joined(adj: Seq<Seq<usize>>, a: usize, b: usize) -> Seq<Seq<usize>> {
    linked_to(linked_to(adj, a, b), b, a)
}

/// `adj` with the edges of face `f`.
pub open spec fn face_joined(adj: Seq<Seq<usize>>, f: Face) -> Seq<Seq<usize>> {
    joined(joined(joined(adj, f.a, f.b), f.b, f.c), f.c, f.a)
}

/// The neighbours of each of `n` vertices, in the order in which the first `t`
/// faces bring them up.
pub open spec fn neighbours(faces: Seq<Face>, n: nat, t: int) -> Seq<Seq<usize>>
    decreases t,
{
    if t <= 0 {
        Seq::new(n, |i: int| Seq::<usize>::empty())
    } else {
        face_joined(neighbours(faces, n, t - 1), faces[t - 1])
    }
}

pub open spec fn lists_of(v: Seq<Vec<usize>>) -> Seq<Seq<usize>> {
    Seq::new(v.len(), |i: int| v[i]@)
}

/// Neighbours are neighbours of each other, and none is listed twice.
pub open spec fn mutual(adj: Seq<Seq<usize>>) -> bool {
    &&& forall|i: int| 0 <= i < adj.len() ==> (#[trigger] adj[i]).no_duplicates()
    &&& forall|i: int, j: int|
        0 <= i < adj.len() && 0 <= j < adj.len() ==> (#[trigger] adj[i].contains(j as usize)
            <==> #[trigger] adj[j].contains(i as usize))
    &&& forall|i: int, x: usize|
        0 <= i < adj.len() && #[trigger] adj[i].contains(x) ==> x < adj.len()
}

/// Adding an edge to `a` from one side.
proof fn lemma_linked_to(adj: Seq<Seq<usize>>, a: usize, b: usize)
    requires
        a < adj.len(),
        adj[a as int].no_duplicates(),
    ensures
        linked_to(adj, a, b).len() == adj.len(),
        linked_to(adj, a, b)[a as int].no_duplicates(),
        forall|x: usize|
            #[trigger] linked_to(adj, a, b)[a as int].contains(x) <==> adj[a as int].contains(x) || x
                == b,
        forall|i: int|
            0 <= i < adj.len() && i != a ==> #[trigger] linked_to(adj, a, b)[i] == adj[i],
{
    let l = adj[a as int];
    if !l.contains(b) {
        let m = l.push(b);
        assert forall|x: usize| #[trigger] m.contains(x) <==> l.contains(x) || x == b by {
            assert(m[l.len() as int] == b);
            if l.contains(x) {
                let k = choose|k: int| 0 <= k < l.len() && l[k] == x;
                assert(m[k] == x);
            }
            if m.contains(x) && x != b {
                let k = choose|k: int| 0 <= k < m.len() && m[k] == x;
                assert(l[k] == x);
            }
        }
        assert(m.no_duplicates()) by {
            assert forall|i: int, j: int| 0 <= i < m.len() && 0 <= j < m.len() && i != j implies m[i]
                != m[j] by {
                if i < l.len() && j < l.len() {
                    assert(l[i] != l[j]);
                } else if i < l.len() {
                    assert(l.contains(l[i]));
                } else {
                    assert(l.contains(l[j]));
                }
            }
        }
    }
}

/// An edge keeps neighbours mutual.
proof fn lemma_joined(adj: Seq<Seq<usize>>, a: usize, b: usize)
    requires
        mutual(adj),
        a < adj.len(),
        b < adj.len(),
        adj.len() <= usize::MAX,
    ensures
        mutual(joined(adj, a, b)),
        joined(adj, a, b).len() == adj.len(),
        forall|i: int, x: usize|
            0 <= i < adj.len() ==> (#[trigger] joined(adj, a, b)[i].contains(x) <==> adj[i].contains(
                x,
            ) || (i == a && x == b) || (i == b && x == a)),
{
    let m = linked_to(adj, a, b);
    let r = joined(adj, a, b);
    lemma_linked_to(adj, a, b);
    assert(m[b as int].no_duplicates()) by {
        if b != a {
            assert(m[b as int] == adj[b as int]);
        }
    }
    lemma_linked_to(m, b, a);
    assert forall|i: int, x: usize| 0 <= i < adj.len() implies (#[trigger] r[i].contains(x)
        <==> adj[i].contains(x) || (i == a && x == b) || (i == b && x == a)) by {
        if i == b {
            assert(r[b as int].contains(x) <==> m[b as int].contains(x) || x == a);
            if a == b {
                assert(m[a as int].contains(x) <==> adj[a as int].contains(x) || x == b);
            } else {
                assert(m[i] == adj[i]);
            }
        } else {
            assert(r[i] == m[i]);
            if i == a {
                assert(m[a as int].contains(x) <==> adj[a as int].contains(x) || x == b);
            } else {
                assert(m[i] == adj[i]);
            }
        }
    }
    assert forall|i: int| 0 <= i < r.len() implies (#[trigger] r[i]).no_duplicates() by {
        if i != b {
            assert(r[i] == m[i]);
            if i != a {
                assert(m[i] == adj[i]);
            }
        }
    }
    assert forall|i: int, j: int| 0 <= i < r.len() && 0 <= j < r.len() implies (
    #[trigger] r[i].contains(j as usize) <==> #[trigger] r[j].contains(i as usize)) by {
        assert(adj[i].contains(j as usize) <==> adj[j].contains(i as usize));
    }
    assert forall|i: int, x: usize| 0 <= i < r.len() && #[trigger] r[i].contains(x) implies x < r.len() by {
        assert(r[i].contains(x) <==> adj[i].contains(x) || (i == a && x == b) || (i == b && x == a));
    }
}

/// Two corners of face `f`.
pub open spec fn on_edge(f: Face, i: int, x: usize) -> bool {
    ||| i == f.a && x == f.b
    ||| i == f.b && x == f.a
    ||| i == f.b && x == f.c
    ||| i == f.c && x == f.b
    ||| i == f.c && x == f.a
    ||| i == f.a && x == f.c
}

/// Vertices are neighbours exactly where some face has an edge between them;
/// being neighbours goes both ways, and nobody is listed twice.
pub proof fn law_neighbours(faces: Seq<Face>, n: nat, t: int)
    requires
        0 <= t <= faces.len(),
        n <= usize::MAX,
        forall|i: int| 0 <= i < faces.len() ==> sound(#[trigger] faces[i], n),
    ensures
        neighbours(faces, n, t).len() == n,
        mutual(neighbours(faces, n, t)),
        forall|i: int, x: usize|
            0 <= i < n ==> (#[trigger] neighbours(faces, n, t)[i].contains(x) <==> exists|k: int|
                0 <= k < t && on_edge(#[trigger] faces[k], i, x)),
    decreases t,
{
    let all = neighbours(faces, n, t);
    if t == 0 {
        assert forall|i: int, x: usize| 0 <= i < n implies !#[trigger] all[i].contains(x) by {}
    } else {
        let was = neighbours(faces, n, t - 1);
        law_neighbours(faces, n, t - 1);
        let f = faces[t - 1];
        assert(sound(f, n));
        let m1 = joined(was, f.a, f.b);
        let m2 = joined(m1, f.b, f.c);
        lemma_joined(was, f.a, f.b);
        lemma_joined(m1, f.b, f.c);
        lemma_joined(m2, f.c, f.a);
        assert(all == joined(m2, f.c, f.a));
        assert forall|i: int, x: usize| 0 <= i < n implies (#[trigger] all[i].contains(x)
            <==> exists|k: int| 0 <= k < t && on_edge(#[trigger] faces[k], i, x)) by {
            assert(m2[i].contains(x) <==> m1[i].contains(x) || (i == f.b && x == f.c) || (i == f.c && x
                == f.b));
            assert(m1[i].contains(x) <==> was[i].contains(x) || (i == f.a && x == f.b) || (i == f.b && x
                == f.a));
            assert(all[i].contains(x) <==> was[i].contains(x) || on_edge(f, i, x));
            if was[i].contains(x) {
                let k = choose|k: int| 0 <= k < t - 1 && on_edge(#[trigger] faces[k], i, x);
                assert(0 <= k < t && on_edge(faces[k], i, x));
            }
            if exists|k: int| 0 <= k < t && on_edge(#[trigger] faces[k], i, x) {
                let k = choose|k: int| 0 <= k < t && on_edge(#[trigger] faces[k], i, x);
                if k < t - 1 {
                    assert(0 <= k < t - 1 && on_edge(faces[k], i, x));
                }
            }
        }
    }
}

fn lists(v: &Vec<usize>, x: usize) -> (r: bool)
    ensures
        r == v@.contains(x),
{
    let mut i: usize = 0;
    while i < v.len()
        invariant
            i <= v@.len(),
            forall|j: int| 0 <= j < i ==> v@[j] != x,
        decreases v.len() - i,
    {
        if v[i] == x {
            return true;
        }
        i = i + 1;
    }
    false
}

fn link_to(adj: &mut Vec<Vec<usize>>, a: usize, b: usize)
    requires
        a < old(adj)@.len(),
    ensures
        lists_of(final(adj)@) == linked_to(lists_of(old(adj)@), a, b),
        final(adj)@.len() == old(adj)@.len(),
{
    let ghost o = lists_of(adj@);
    assert(o[a as int] == adj@[a as int]@);
    if !lists(&adj[a], b) {
        adj[a].push(b);
        assert(lists_of(adj@) =~= o.update(a as int, o[a as int].push(b)));
    }
}

/// The neighbours of each of `n` vertices of a mesh.
pub fn build_adjacency(indices: &Vec<u32>, n: usize) -> (r: Vec<Vec<usize>>)
    ensures
        ({
            let faces = faces_of(indices@, n as nat, face_count(indices@));
            lists_of(r@) == neighbours(faces, n as nat, faces.len() as int)
        }),
{
    let faces = sound_faces(indices, n);
    let mut adj: Vec<Vec<usize>> = Vec::new();
    let mut i: usize = 0;
    while i < n
        invariant
            i <= n,
            adj@.len() == i,
            forall|j: int| 0 <= j < i ==> (#[trigger] adj@[j])@ == Seq::<usize>::empty(),
        decreases n - i,
    {
        let ghost o = adj@;
        adj.push(Vec::new());
        assert forall|j: int| 0 <= j < i + 1 implies (#[trigger] adj@[j])@ == Seq::<usize>::empty() by {
            if j < i {
                assert(adj@[j] == o[j]);
            }
        }
        i = i + 1;
    }
    assert(lists_of(adj@) =~= Seq::new(n as nat, |i: int| Seq::<usize>::empty()));
    let mut t: usize = 0;
    while t < faces.len()
        invariant
            t <= faces@.len(),
            adj@.len() == n,
            forall|i: int| 0 <= i < faces@.len() ==> sound(#[trigger] faces@[i], n as nat),
            lists_of(adj@) == neighbours(faces@, n as nat, t as int),
        decreases faces.len() - t,
    {
        let f = faces[t];
        assert(sound(faces@[t as int], n as nat));
        link_to(&mut adj, f.a, f.b);
        link_to(&mut adj, f.b, f.a);
        link_to(&mut adj, f.b, f.c);
        link_to(&mut adj, f.c, f.b);
        link_to(&mut adj, f.c, f.a);
        link_to(&mut adj, f.a, f.c);
        t = t + 1;
    }
    adj
}

/// Place of the face that is hit first, given the distance of each hit: hits
/// behind the eye do not count, and one at least as far as the best so far does
/// not displace it.
pub open spec fn first_hit(ts: Seq<Option<Scalar>>) -> Option<int>
    decreases ts.len(),
{
    if ts.len() == 0 {
        None
    } else {
        let front = first_hit(ts.drop_last());
        match ts.last() {
            None => front,
            Some(t) => if less_than(t, Scalar { bits: BITS_ZERO }) {
                front
            } else {
                match front {
                    Some(k) => if at_least(t, ts[k]->0) {
                        front
                    } else {
                        Some(ts.len() - 1)
                    },
                    None => Some(ts.len() - 1),
                }
            },
        }
    }
}

/// Where all distances are numbers, the face that is found is hit in front of
/// the eye, no other such hit is nearer, and nothing is found only where there
/// is none.
pub proof fn law_first_hit(ts: Seq<Option<Scalar>>)
    requires
        all_numbers(ts),
    ensures
        match first_hit(ts) {
            Some(k) => {
                &&& 0 <= k < ts.len() && ts[k] is Some
                &&& !less_than(ts[k]->0, Scalar { bits: BITS_ZERO })
                &&& forall|i: int|
                    0 <= i < ts.len() && (#[trigger] ts[i]) is Some && !less_than(
                        ts[i]->0,
                        Scalar { bits: BITS_ZERO },
                    ) ==> !less_than(ts[i]->0, ts[k]->0)
            },
            None => forall|i: int|
                0 <= i < ts.len() && (#[trigger] ts[i]) is Some ==> less_than(
                    ts[i]->0,
                    Scalar { bits: BITS_ZERO },
                ),
        },
    decreases ts.len(),
{
    if ts.len() > 0 {
        let front = ts.drop_last();
        let zero = Scalar { bits: BITS_ZERO };
        assert(all_numbers(front)) by {
            assert forall|i: int| 0 <= i < front.len() && (#[trigger] front[i]) is Some implies !nan(
                front[i]->0,
            ) by {
                assert(ts[i] == front[i]);
            }
        }
        law_first_hit(front);
        assert(ts.last() == ts[ts.len() - 1]);
        match first_hit(front) {
            Some(k) => {
                assert(ts[k] == front[k]);
            },
            None => {},
        }
        match first_hit(ts) {
            Some(w) => {
                assert forall|i: int|
                    0 <= i < ts.len() && (#[trigger] ts[i]) is Some && !less_than(ts[i]->0, zero)
                        implies !less_than(ts[i]->0, ts[w]->0) by {
                    if i < front.len() {
                        assert(front[i] == ts[i]);
                    }
                }
            },
            None => {
                assert forall|i: int| 0 <= i < ts.len() && (#[trigger] ts[i]) is Some implies less_than(
                    ts[i]->0,
                    zero,
                ) by {
                    if i < front.len() {
                        assert(front[i] == ts[i]);
                    }
                }
            },
        }
    }
}

/// Place of the face that a ray hits first.
pub fn nearest_face(ts: &Vec<Option<Scalar>>) -> (r: Option<usize>)
    ensures
        match r {
            Some(k) => first_hit(ts@) == Some(k as int) && k < ts@.len(),
            None => first_hit(ts@) is None,
        },
{
    let zero = Scalar { bits: BITS_ZERO };
    let mut best: Option<(usize, Scalar)> = None;
    let mut i: usize = 0;
    while i < ts.len()
        invariant
            i <= ts@.len(),
            zero == (Scalar { bits: BITS_ZERO }),
            match best {
                Some(b) => first_hit(ts@.take(i as int)) == Some(b.0 as int) && b.0 < i
                    && ts@[b.0 as int] == Some(b.1),
                None => first_hit(ts@.take(i as int)) is None,
            },
        decreases ts.len() - i,
    {
        let ghost t1 = ts@.take(i as int + 1);
        assert(t1.drop_last() =~= ts@.take(i as int));
        assert(t1.last() == ts@[i as int]);
        if let Some(t) = ts[i] {
            if !t.less(&zero) {
                let keep = match best {
                    Some(b) => {
                        assert(t1[b.0 as int] == ts@[b.0 as int]);
                        t.reaches(&b.1)
                    },
                    None => false,
                };
                if !keep {
                    best = Some((i, t));
                }
            }
        }
        i = i + 1;
    }
    assert(ts@.take(i as int) =~= ts@);
    match best {
        Some(b) => Some(b.0),
        None => None,
    }
}

} // verus!
