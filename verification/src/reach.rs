//! Reachability over carved floor tiles: the specification behind the
//! generator's connectivity guarantee, and the lemmas that build walks
//! through rows, columns and room interiors.
use crate::tiles::GameMap;
use vstd::prelude::*;

verus! {

/// Two tiles side by side (one orthogonal step apart).
pub open spec fn adj(a: (int, int), b: (int, int)) -> bool {
    ||| (a.0 == b.0 && (b.1 == a.1 + 1 || b.1 == a.1 - 1))
    ||| (a.1 == b.1 && (b.0 == a.0 + 1 || b.0 == a.0 - 1))
}

/// A walk over carved, in-bounds tiles: non-empty, each tile open, each
/// consecutive pair adjacent.
pub open spec fn path_ok(m: GameMap, path: Seq<(int, int)>) -> bool {
    &&& path.len() >= 1
    &&& forall|i: int|
        0 <= i < path.len() ==> m.open_at((#[trigger] path[i]).0, path[i].1)
    &&& forall|i: int| 0 <= i < path.len() - 1 ==> adj(#[trigger] path[i], path[i + 1])
}

/// Tile `b` can be walked to from tile `a` over carved tiles only.
pub open spec fn reach(m: GameMap, a: (int, int), b: (int, int)) -> bool {
    exists|path: Seq<(int, int)>| path_ok(m, path) && path[0] == a && path.last() == b
}

/// An open tile reaches itself.
pub proof fn lemma_reach_refl(m: GameMap, a: (int, int))
    requires
        m.open_at(a.0, a.1),
    ensures
        reach(m, a, a),
{
    let path = seq![a];
    assert(path_ok(m, path));
    assert(path[0] == a && path.last() == a);
}

/// A walk can be extended by one adjacent open tile.
pub proof fn lemma_reach_step(m: GameMap, a: (int, int), b: (int, int), c: (int, int))
    requires
        reach(m, a, b),
        adj(b, c),
        m.open_at(c.0, c.1),
    ensures
        reach(m, a, c),
{
    let p = choose|p: Seq<(int, int)>| path_ok(m, p) && p[0] == a && p.last() == b;
    let q = p.push(c);
    assert forall|i: int| 0 <= i < q.len() implies m.open_at((#[trigger] q[i]).0, q[i].1) by {
        if i < p.len() {
            assert(q[i] == p[i]);
        } else {
            assert(q[i] == c);
        }
    }
    assert forall|i: int| 0 <= i < q.len() - 1 implies adj(#[trigger] q[i], q[i + 1]) by {
        if i < p.len() - 1 {
            assert(q[i] == p[i] && q[i + 1] == p[i + 1]);
        } else {
            assert(q[i] == p.last() && q[i + 1] == c);
        }
    }
    assert(path_ok(m, q) && q[0] == a && q.last() == c);
}

/// Walks compose.
pub proof fn lemma_reach_trans(m: GameMap, a: (int, int), b: (int, int), c: (int, int))
    requires
        reach(m, a, b),
        reach(m, b, c),
    ensures
        reach(m, a, c),
{
    let p = choose|p: Seq<(int, int)>| path_ok(m, p) && p[0] == a && p.last() == b;
    let q = choose|q: Seq<(int, int)>| path_ok(m, q) && q[0] == b && q.last() == c;
    let r = p + q.drop_first();
    assert(r.len() == p.len() + q.len() - 1);
    assert forall|i: int| 0 <= i < r.len() implies m.open_at((#[trigger] r[i]).0, r[i].1) by {
        if i < p.len() {
            assert(r[i] == p[i]);
        } else {
            assert(r[i] == q[i - p.len() + 1]);
        }
    }
    assert forall|i: int| 0 <= i < r.len() - 1 implies adj(#[trigger] r[i], r[i + 1]) by {
        if i < p.len() - 1 {
            assert(r[i] == p[i] && r[i + 1] == p[i + 1]);
        } else if i == p.len() - 1 {
            if q.len() == 1 {
                assert(i == r.len() - 1);
            } else {
                assert(r[i] == p.last() && r[i + 1] == q[1]);
                assert(adj(q[0], q[1]));
            }
        } else {
            assert(r[i] == q[i - p.len() + 1] && r[i + 1] == q[i - p.len() + 2]);
        }
    }
    assert(r[0] == a);
    if q.len() == 1 {
        assert(r.last() == p.last());
        assert(b == c);
    } else {
        assert(r.last() == q.last());
    }
    assert(path_ok(m, r) && r[0] == a && r.last() == c);
}

/// Walks reverse.
pub proof fn lemma_reach_sym(m: GameMap, a: (int, int), b: (int, int))
    requires
        reach(m, a, b),
    ensures
        reach(m, b, a),
{
    let p = choose|p: Seq<(int, int)>| path_ok(m, p) && p[0] == a && p.last() == b;
    let n = p.len() as int;
    let r = Seq::new(p.len(), |i: int| p[n - 1 - i]);
    assert forall|i: int| 0 <= i < r.len() - 1 implies adj(#[trigger] r[i], r[i + 1]) by {
        assert(r[i] == p[n - 1 - i] && r[i + 1] == p[n - 2 - i]);
        assert(adj(p[n - 2 - i], p[n - 1 - i]));
    }
    assert(path_ok(m, r) && r[0] == b && r.last() == a);
}

/// A tile walked to is itself carved and in bounds: reachability never
/// leaves the open set.
pub proof fn lemma_reach_open(m: GameMap, a: (int, int), b: (int, int))
    requires
        reach(m, a, b),
    ensures
        m.open_at(b.0, b.1),
{
    let p = choose|p: Seq<(int, int)>| path_ok(m, p) && p[0] == a && p.last() == b;
    assert(m.open_at(p[p.len() - 1].0, p[p.len() - 1].1));
}

/// Carving only ever opens tiles, so walks survive it.
pub proof fn lemma_reach_mono(m1: GameMap, m2: GameMap, a: (int, int), b: (int, int))
    requires
        reach(m1, a, b),
        forall|x: int, y: int| #[trigger] m1.open_at(x, y) ==> m2.open_at(x, y),
    ensures
        reach(m2, a, b),
{
    let p = choose|p: Seq<(int, int)>| path_ok(m1, p) && p[0] == a && p.last() == b;
    assert forall|i: int| 0 <= i < p.len() implies m2.open_at((#[trigger] p[i]).0, p[i].1) by {
        assert(m1.open_at(p[i].0, p[i].1));
    }
    assert(path_ok(m2, p) && p[0] == a && p.last() == b);
}

/// A fully open row segment can be walked left to right.
proof fn lemma_h_path(m: GameMap, x0: int, x1: int, y: int)
    requires
        x0 <= x1,
        forall|x: int| x0 <= x <= x1 ==> #[trigger] m.open_at(x, y),
    ensures
        reach(m, (x0, y), (x1, y)),
    decreases x1 - x0,
{
    if x0 == x1 {
        lemma_reach_refl(m, (x0, y));
    } else {
        lemma_h_path(m, x0, x1 - 1, y);
        lemma_reach_step(m, (x0, y), (x1 - 1, y), (x1, y));
    }
}

/// A fully open column segment can be walked top to bottom.
proof fn lemma_v_path(m: GameMap, y0: int, y1: int, x: int)
    requires
        y0 <= y1,
        forall|y: int| y0 <= y <= y1 ==> #[trigger] m.open_at(x, y),
    ensures
        reach(m, (x, y0), (x, y1)),
    decreases y1 - y0,
{
    if y0 == y1 {
        lemma_reach_refl(m, (x, y0));
    } else {
        lemma_v_path(m, y0, y1 - 1, x);
        lemma_reach_step(m, (x, y0), (x, y1 - 1), (x, y1));
    }
}

/// A fully open row segment connects any two of its tiles, whatever their
/// order.
pub proof fn lemma_h_any(m: GameMap, xa: int, xb: int, y: int)
    requires
        forall|x: int|
            crate::tiles::min_i(xa, xb) <= x <= crate::tiles::max_i(xa, xb)
                ==> #[trigger] m.open_at(x, y),
    ensures
        reach(m, (xa, y), (xb, y)),
{
    if xa <= xb {
        lemma_h_path(m, xa, xb, y);
    } else {
        lemma_h_path(m, xb, xa, y);
        lemma_reach_sym(m, (xb, y), (xa, y));
    }
}

/// A fully open column segment connects any two of its tiles, whatever
/// their order.
pub proof fn lemma_v_any(m: GameMap, ya: int, yb: int, x: int)
    requires
        forall|y: int|
            crate::tiles::min_i(ya, yb) <= y <= crate::tiles::max_i(ya, yb)
                ==> #[trigger] m.open_at(x, y),
    ensures
        reach(m, (x, ya), (x, yb)),
{
    if ya <= yb {
        lemma_v_path(m, ya, yb, x);
    } else {
        lemma_v_path(m, yb, ya, x);
        lemma_reach_sym(m, (x, yb), (x, ya));
    }
}

/// A fully open rectangle connects any two of its tiles: walk the column
/// to the target row, then the row to the target column.
pub proof fn lemma_rect_reach(
    m: GameMap,
    lx: int,
    hx: int,
    ly: int,
    hy: int,
    a: (int, int),
    b: (int, int),
)
    requires
        forall|x: int, y: int|
            lx <= x <= hx && ly <= y <= hy ==> #[trigger] m.open_at(x, y),
        lx <= a.0 <= hx,
        ly <= a.1 <= hy,
        lx <= b.0 <= hx,
        ly <= b.1 <= hy,
    ensures
        reach(m, a, b),
{
    assert forall|y: int|
        crate::tiles::min_i(a.1, b.1) <= y <= crate::tiles::max_i(a.1, b.1) implies #[trigger] m
        .open_at(a.0, y) by {
        assert(ly <= y <= hy);
    }
    lemma_v_any(m, a.1, b.1, a.0);
    assert forall|x: int|
        crate::tiles::min_i(a.0, b.0) <= x <= crate::tiles::max_i(a.0, b.0) implies #[trigger] m
        .open_at(x, b.1) by {
        assert(lx <= x <= hx);
    }
    lemma_h_any(m, a.0, b.0, b.1);
    lemma_reach_trans(m, a, (a.0, b.1), b);
}

} // verus!
