//! Geometry of the square lattice: `n` interior cells per side plus a
//! one-cell border ring, stored row-major in a flat buffer.
use vstd::arithmetic::div_mod::lemma_fundamental_div_mod_converse;
use vstd::prelude::*;

verus! {

/// Side length of the lattice, border included.
pub open spec fn side(n: nat) -> nat {
    n + 2
}

/// Number of cells in the lattice, border included.
pub open spec fn cell_count(n: nat) -> nat {
    side(n) * side(n)
}

/// Flat offset of lattice point `(x, y)`.
pub open spec fn index_of(n: nat, x: nat, y: nat) -> nat {
    x + side(n) * y
}

/// Whether `(x, y)` is a point of the lattice.
pub open spec fn in_lattice(n: nat, x: nat, y: nat) -> bool {
    x <= n + 1 && y <= n + 1
}

/// Column of the cell stored at flat offset `i`.
pub open spec fn column_of(n: nat, i: nat) -> nat {
    i % side(n)
}

/// Row of the cell stored at flat offset `i`.
pub open spec fn row_of(n: nat, i: nat) -> nat {
    i / side(n)
}

/// Whether the cell stored at flat offset `i` lies on the border ring.
pub open spec fn is_border(n: nat, i: nat) -> bool {
    column_of(n, i) == 0 || column_of(n, i) == n + 1 || row_of(n, i) == 0 || row_of(n, i) == n + 1
}

/// `c` clamped into the coordinate range `[0, n + 1]`.
pub open spec fn clamp_coord(n: nat, c: int) -> nat {
    if c < 0 {
        0
    } else if c > n + 1 {
        (n + 1) as nat
    } else {
        c as nat
    }
}

/// A lattice whose cells can be counted in a `u16` has at most 253
/// interior cells per side.
pub proof fn lemma_side_bound(n: nat)
    requires
        cell_count(n) <= 0xffff,
    ensures
        n <= 253,
{
    if n > 253 {
        assert(side(n) * side(n) >= 256 * 256) by (nonlinear_arith)
            requires
                side(n) >= 256,
        ;
    }
}

/// The column and row of a lattice point are recovered from its offset.
pub proof fn lemma_index_coords(n: nat, x: nat, y: nat)
    requires
        in_lattice(n, x, y),
    ensures
        column_of(n, index_of(n, x, y)) == x,
        row_of(n, index_of(n, x, y)) == y,
        index_of(n, x, y) < cell_count(n),
{
    lemma_fundamental_div_mod_converse(index_of(n, x, y) as int, side(n) as int, y as int, x as int);
    assert(x + side(n) * y < side(n) * side(n)) by (nonlinear_arith)
        requires
            x < side(n),
            y < side(n),
    ;
}

/// Every offset below the cell count is the offset of the lattice point
/// given by its column and row.
pub proof fn lemma_offset_coords(n: nat, i: nat)
    requires
        i < cell_count(n),
    ensures
        in_lattice(n, column_of(n, i), row_of(n, i)),
        index_of(n, column_of(n, i), row_of(n, i)) == i,
{
    let w = side(n);
    assert(i == w * (i / w) + i % w) by (nonlinear_arith)
        requires
            w > 0,
    ;
    assert(i / w < w) by (nonlinear_arith)
        requires
            w > 0,
            i < w * w,
    ;
}

/// Whether offset `m` comes before lattice point `(i, j)` in the order in
/// which the field passes visit cells: column by column, and down each
/// column.
pub open spec fn visited_before(n: nat, m: nat, i: nat, j: nat) -> bool {
    column_of(n, m) < i || (column_of(n, m) == i && row_of(n, m) < j)
}

/// Whether `target` holds `expected(m)` at every interior offset `m`
/// visited before `(i, j)`, and agrees with `orig` everywhere else.
pub open spec fn pass_progress<V>(
    n: nat,
    expected: spec_fn(int) -> V,
    orig: Seq<V>,
    target: Seq<V>,
    i: nat,
    j: nat,
) -> bool {
    &&& target.len() == cell_count(n)
    &&& orig.len() == cell_count(n)
    &&& forall|m: int|
        #![trigger target[m]]
        0 <= m < cell_count(n) ==> if !is_border(n, m as nat) && visited_before(n, m as nat, i, j) {
            target[m] == expected(m)
        } else {
            target[m] == orig[m]
        }
}

/// The result of a whole pass: `orig` with every interior offset `m`
/// replaced by `expected(m)`.
pub open spec fn pass_result<V>(n: nat, expected: spec_fn(int) -> V, orig: Seq<V>) -> Seq<V> {
    Seq::new(orig.len(), |m: int| if is_border(n, m as nat) { orig[m] } else { expected(m) })
}

/// Before a pass, nothing is visited.
pub proof fn lemma_pass_start<V>(n: nat, expected: spec_fn(int) -> V, orig: Seq<V>)
    requires
        orig.len() == cell_count(n),
    ensures
        pass_progress(n, expected, orig, orig, 1, 1),
{
}

/// Writing `expected` at `(i, j)` moves the pass one cell on.
pub proof fn lemma_pass_step<V>(
    n: nat,
    expected: spec_fn(int) -> V,
    orig: Seq<V>,
    prev: Seq<V>,
    i: nat,
    j: nat,
)
    requires
        1 <= i <= n,
        1 <= j <= n,
        pass_progress(n, expected, orig, prev, i, j),
    ensures
        pass_progress(
            n,
            expected,
            orig,
            prev.update(index_of(n, i, j) as int, expected(index_of(n, i, j) as int)),
            i,
            j + 1,
        ),
{
    let idx = index_of(n, i, j) as int;
    let t = prev.update(idx, expected(idx));
    lemma_index_coords(n, i, j);
    assert forall|m: int| 0 <= m < cell_count(n) implies if !is_border(n, m as nat) && visited_before(
        n,
        m as nat,
        i,
        j + 1,
    ) {
        #[trigger] t[m] == expected(m)
    } else {
        t[m] == orig[m]
    } by {
        lemma_offset_coords(n, m as nat);
    }
}

/// A finished column moves the pass to the top of the next one.
pub proof fn lemma_pass_column<V>(
    n: nat,
    expected: spec_fn(int) -> V,
    orig: Seq<V>,
    target: Seq<V>,
    i: nat,
)
    requires
        pass_progress(n, expected, orig, target, i, n + 1),
    ensures
        pass_progress(n, expected, orig, target, i + 1, 1),
{
    assert forall|m: int| 0 <= m < cell_count(n) implies if !is_border(n, m as nat) && visited_before(
        n,
        m as nat,
        i + 1,
        1,
    ) {
        #[trigger] target[m] == expected(m)
    } else {
        target[m] == orig[m]
    } by {
        lemma_offset_coords(n, m as nat);
    }
}

/// After the last column every interior cell holds its expected value.
pub proof fn lemma_pass_done<V>(n: nat, expected: spec_fn(int) -> V, orig: Seq<V>, target: Seq<V>)
    requires
        pass_progress(n, expected, orig, target, n + 1, 1),
    ensures
        target == pass_result(n, expected, orig),
{
    assert forall|m: int| 0 <= m < cell_count(n) implies #[trigger] target[m] == pass_result(
        n,
        expected,
        orig,
    )[m] by {
        lemma_offset_coords(n, m as nat);
    }
    assert(target =~= pass_result(n, expected, orig));
}

/// The flat offset is a bijection from the lattice onto `[0, cell_count)`,
/// sending the first corner to 0 and the last corner to `cell_count - 1`.
pub proof fn lemma_index_bijective(n: nat)
    ensures
        forall|x: nat, y: nat| #[trigger]
            in_lattice(n, x, y) ==> index_of(n, x, y) < cell_count(n),
        forall|x1: nat, y1: nat, x2: nat, y2: nat|
            in_lattice(n, x1, y1) && in_lattice(n, x2, y2) && #[trigger] index_of(n, x1, y1)
                == #[trigger] index_of(n, x2, y2) ==> x1 == x2 && y1 == y2,
        forall|i: nat|
            i < cell_count(n) ==> in_lattice(n, #[trigger] column_of(n, i), row_of(n, i))
                && index_of(n, column_of(n, i), row_of(n, i)) == i,
        index_of(n, 0, 0) == 0,
        index_of(n, n + 1, n + 1) == cell_count(n) - 1,
{
    assert forall|x: nat, y: nat| #[trigger] in_lattice(n, x, y) implies index_of(n, x, y)
        < cell_count(n) by {
        lemma_index_coords(n, x, y);
    }
    assert forall|x1: nat, y1: nat, x2: nat, y2: nat|
        in_lattice(n, x1, y1) && in_lattice(n, x2, y2) && #[trigger] index_of(n, x1, y1)
            == #[trigger] index_of(n, x2, y2) implies x1 == x2 && y1 == y2 by {
        lemma_index_coords(n, x1, y1);
        lemma_index_coords(n, x2, y2);
    }
    assert forall|i: nat| i < cell_count(n) implies in_lattice(
        n,
        #[trigger] column_of(n, i),
        row_of(n, i),
    ) && index_of(n, column_of(n, i), row_of(n, i)) == i by {
        lemma_offset_coords(n, i);
    }
    assert((n + 1) + (n + 2) * (n + 1) == (n + 2) * (n + 2) - 1) by (nonlinear_arith);
}

/// Flat offset of lattice point `(x, y)` on a lattice with `n` interior
/// cells per side.
pub fn flat_index(n: u16, x: u16, y: u16) -> (r: u16)
    requires
        cell_count(n as nat) <= 0xffff,
        in_lattice(n as nat, x as nat, y as nat),
    ensures
        r as nat == index_of(n as nat, x as nat, y as nat),
        (r as nat) < cell_count(n as nat),
{
    proof {
        lemma_index_coords(n as nat, x as nat, y as nat);
        assert(y as nat <= side(n as nat) * y as nat) by (nonlinear_arith)
            requires
                side(n as nat) >= 1,
        ;
        assert(side(n as nat) <= cell_count(n as nat)) by (nonlinear_arith);
    }
    x + (n + 2) * y
}

/// The lattice coordinate nearest to `c`: `c` clamped into `[0, n + 1]`.
pub fn clamp_to_lattice(n: u16, c: i64) -> (r: u16)
    requires
        n < 0xffff,
    ensures
        r == clamp_coord(n as nat, c as int),
{
    let hi: u16 = n + 1;
    if c < 0 {
        0
    } else if c > hi as i64 {
        hi
    } else {
        c as u16
    }
}

/// The two lattice coordinates that bound a continuous coordinate whose
/// floor is `floor` and whose ceiling is `ceil`, each clamped into
/// `[0, n + 1]`. On a lattice line the two coincide.
pub fn lattice_bounds(n: u16, floor: i64, ceil: i64) -> (r: (u16, u16))
    requires
        n < 0xffff,
    ensures
        r.0 == clamp_coord(n as nat, floor as int),
        r.1 == clamp_coord(n as nat, ceil as int),
{
    (clamp_to_lattice(n, floor), clamp_to_lattice(n, ceil))
}

} // verus!
