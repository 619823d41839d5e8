//! The simulation state: six double-buffered fields on one lattice, the
//! per-cell diffusion and advection rules, and the per-frame stepping.
use crate::grid::{
    cell_count, clamp_coord, column_of, flat_index, in_lattice, index_of, is_border,
    lattice_bounds, lemma_index_bijective, lemma_index_coords, lemma_pass_column, lemma_pass_done, lemma_pass_start,
    lemma_pass_step, lemma_side_bound, pass_progress, row_of,
};
use crate::relax::{evaluates_to, gauss_seidel, relaxes_to, GaussSeidelFunction};
use crate::scalar::Scalar;
use vstd::prelude::*;

verus! {

/// Number of Gauss-Seidel sweeps run for each cell's diffusion system.
pub const DIFFUSION_SWEEPS: u16 = 10;

/// The default time step is one over this many.
pub const DEFAULT_DT_DIVISOR: u16 = 10;

/// Parameters of one diffusion equation: the fixed value of its cell and the
/// stiffness `k = dt * diffusion`.
pub struct DiffLinearEquationArgs<V> {
    pub value: V,
    pub k: V,
}

impl<V> DiffLinearEquationArgs<V> {
    pub fn new(value: V, k: V) -> (r: DiffLinearEquationArgs<V>)
        ensures
            r.value == value,
            r.k == k,
    {
        DiffLinearEquationArgs { value, k }
    }
}

/// The diffusion equation `(c + k * (v0 + v1 + v2 + v3)) / (1 + k)`.
pub open spec fn diff_value<V: Scalar>(c: V, k: V, v: Seq<V>) -> V {
    c.spec_plus(k.spec_times(v[0].spec_plus(v[1]).spec_plus(v[2]).spec_plus(v[3]))).spec_over(
        V::spec_one().spec_plus(k),
    )
}

/// The unknowns after `steps` in-place updates of the diffusion system with
/// fixed values `cs`, starting with update number `t`: update `t` replaces
/// unknown `t % 4` by its equation's value on the current unknowns.
pub open spec fn diffusion_relax<V: Scalar>(k: V, cs: Seq<V>, s: Seq<V>, t: nat, steps: nat) -> Seq<
    V,
>
    decreases steps,
{
    if steps == 0 {
        s
    } else {
        let i = (t % 4) as int;
        diffusion_relax(k, cs, s.update(i, diff_value(cs[i], k, s)), t + 1, (steps - 1) as nat)
    }
}

/// The fixed values of the diffusion system of cell `(x, y)` of `f`: its
/// east, west, north and south neighbours.
pub open spec fn neighbour_values<V>(n: nat, x: nat, y: nat, f: Seq<V>) -> Seq<V> {
    seq![
        f[index_of(n, x + 1, y) as int],
        f[index_of(n, (x - 1) as nat, y) as int],
        f[index_of(n, x, y + 1) as int],
        f[index_of(n, x, (y - 1) as nat) as int],
    ]
}

/// The diffused value of interior cell `(x, y)` of `f` with stiffness `k`.
pub open spec fn diffused<V: Scalar>(n: nat, k: V, x: nat, y: nat, f: Seq<V>) -> V {
    let z = V::spec_zero();
    let solved = diffusion_relax(
        k,
        neighbour_values(n, x, y, f),
        seq![z, z, z, z],
        0,
        4 * DIFFUSION_SWEEPS as nat,
    );
    diff_value(f[index_of(n, x, y) as int], k, solved)
}

/// Linear interpolation at `p` between `v0` at coordinate `c0` and `v1` at
/// coordinate `c1`; `v0` where the coordinates coincide.
pub open spec fn interpolated<V: Scalar>(c0: u16, v0: V, c1: u16, v1: V, p: V) -> V {
    if c0 == c1 {
        v0
    } else {
        let a = V::spec_from_coord(c0);
        let b = V::spec_from_coord(c1);
        v0.spec_plus(v1.spec_minus(v0).spec_times(p.spec_minus(a)).spec_over(b.spec_minus(a)))
    }
}

/// The continuous coordinate that cell coordinate `c` traces back to along
/// velocity `v` over time `dt`.
pub open spec fn traced<V: Scalar>(c: u16, v: V, dt: V) -> V {
    V::spec_from_coord(c).spec_minus(v.spec_times(dt))
}

/// The advected value of interior cell `(x, y)` of `f`, whose velocity is
/// `(vx, vy)`: `f` interpolated bilinearly at the traced-back position from
/// its four bounding lattice points (floor and ceiling of each coordinate,
/// clamped into the lattice).
#[verifier::opaque]
pub open spec fn advected<V: Scalar>(n: nat, dt: V, x: u16, y: u16, vx: V, vy: V, f: Seq<V>) -> V {
    let px = traced(x, vx, dt);
    let py = traced(y, vy, dt);
    let x0 = clamp_coord(n, px.spec_floor() as int);
    let x1 = clamp_coord(n, px.spec_ceil() as int);
    let y0 = clamp_coord(n, py.spec_floor() as int);
    let y1 = clamp_coord(n, py.spec_ceil() as int);
    let top = interpolated(
        x0 as u16,
        f[index_of(n, x0, y0) as int],
        x1 as u16,
        f[index_of(n, x1, y0) as int],
        px,
    );
    let bottom = interpolated(
        x0 as u16,
        f[index_of(n, x0, y1) as int],
        x1 as u16,
        f[index_of(n, x1, y1) as int],
        px,
    );
    interpolated(y0 as u16, top, y1 as u16, bottom, py)
}

/// The diffusion of a cell is local: two fields that agree on the cell and
/// its four neighbours give it the same diffused value.
pub proof fn lemma_diffusion_is_local<V: Scalar>(n: nat, k: V, x: nat, y: nat, f: Seq<V>, g: Seq<V>)
    requires
        1 <= x <= n,
        1 <= y <= n,
        f[index_of(n, x, y) as int] == g[index_of(n, x, y) as int],
        f[index_of(n, x + 1, y) as int] == g[index_of(n, x + 1, y) as int],
        f[index_of(n, (x - 1) as nat, y) as int] == g[index_of(n, (x - 1) as nat, y) as int],
        f[index_of(n, x, y + 1) as int] == g[index_of(n, x, y + 1) as int],
        f[index_of(n, x, (y - 1) as nat) as int] == g[index_of(n, x, (y - 1) as nat) as int],
    ensures
        diffused(n, k, x, y, f) == diffused(n, k, x, y, g),
{
    assert(neighbour_values(n, x, y, f) =~= neighbour_values(n, x, y, g));
}

/// A back-trace that ends at or beyond the first corner of the lattice, in
/// both directions, reads the value of that corner.
pub proof fn lemma_advect_clamps_to_first_corner<V: Scalar>(
    n: nat,
    dt: V,
    x: u16,
    y: u16,
    vx: V,
    vy: V,
    f: Seq<V>,
)
    requires
        traced(x, vx, dt).spec_floor() <= 0,
        traced(x, vx, dt).spec_ceil() <= 0,
        traced(y, vy, dt).spec_floor() <= 0,
        traced(y, vy, dt).spec_ceil() <= 0,
    ensures
        advected(n, dt, x, y, vx, vy, f) == f[0],
{
    reveal(advected);
    lemma_index_bijective(n);
}

/// A back-trace that ends at or beyond the last corner of the lattice, in
/// both directions, reads the value of that corner.
pub proof fn lemma_advect_clamps_to_last_corner<V: Scalar>(
    n: nat,
    dt: V,
    x: u16,
    y: u16,
    vx: V,
    vy: V,
    f: Seq<V>,
)
    requires
        n < 0xffff,
        traced(x, vx, dt).spec_floor() >= n + 1,
        traced(x, vx, dt).spec_ceil() >= n + 1,
        traced(y, vy, dt).spec_floor() >= n + 1,
        traced(y, vy, dt).spec_ceil() >= n + 1,
    ensures
        advected(n, dt, x, y, vx, vy, f) == f[cell_count(n) - 1],
{
    reveal(advected);
    lemma_index_bijective(n);
}

/// `target` with every interior cell replaced by its diffused value from
/// `source`.
pub open spec fn diffused_buffer<V: Scalar>(n: nat, k: V, source: Seq<V>, target: Seq<V>) -> Seq<V> {
    Seq::new(
        target.len(),
        |i: int|
            if is_border(n, i as nat) {
                target[i]
            } else {
                diffused(n, k, column_of(n, i as nat), row_of(n, i as nat), source)
            },
    )
}

/// `target` with every interior cell replaced by its value advected from
/// `source` along the velocity `(vel_x, vel_y)` at that cell.
pub open spec fn advected_buffer<V: Scalar>(
    n: nat,
    dt: V,
    vel_x: Seq<V>,
    vel_y: Seq<V>,
    source: Seq<V>,
    target: Seq<V>,
) -> Seq<V> {
    Seq::new(
        target.len(),
        |i: int|
            if is_border(n, i as nat) {
                target[i]
            } else {
                advected(
                    n,
                    dt,
                    column_of(n, i as nat) as u16,
                    row_of(n, i as nat) as u16,
                    vel_x[i],
                    vel_y[i],
                    source,
                )
            },
    )
}

/// The diffusion equation `(value + k * (v0 + v1 + v2 + v3)) / (1 + k)` on
/// the four unknowns `v`.
pub fn val_after_diff<V: Scalar>(
    surrounding_property_values: &Vec<V>,
    args: &DiffLinearEquationArgs<V>,
) -> (r: V)
    requires
        surrounding_property_values@.len() >= 4,
    ensures
        r == diff_value(args.value, args.k, surrounding_property_values@),
{
    let v = surrounding_property_values;
    let sum = v[0].plus(v[1]).plus(v[2]).plus(v[3]);
    args.value.plus(args.k.times(sum)).over(V::one().plus(args.k))
}

/// A run of the relaxation engine on diffusion equations with fixed values
/// `cs` is the sequential update that `diffusion_relax` describes.
proof fn lemma_relaxes_to_diffusion<F, A, V: Scalar>(
    fs: Seq<GaussSeidelFunction<F, A>>,
    k: V,
    cs: Seq<V>,
    s: Seq<V>,
    t: nat,
    steps: nat,
    out: Seq<V>,
) where F: Fn(&Vec<V>, &A) -> V
    requires
        fs.len() == 4,
        s.len() == 4,
        cs.len() == 4,
        forall|i: int, u: Vec<V>, v: V|
            0 <= i < 4 && #[trigger] fs[i].funciton.ensures((&u, &fs[i].args), v) ==> v
                == diff_value(cs[i], k, u@),
        relaxes_to(fs, s, t, steps, out),
    ensures
        out == diffusion_relax(k, cs, s, t, steps),
    decreases steps,
{
    if steps > 0 {
        let i = (t % 4) as int;
        let v = choose|v: V|
            #[trigger] evaluates_to(fs[i], s, v) && relaxes_to(fs, s.update(i, v), t + 1, (steps - 1) as nat, out);
        let u = choose|u: Vec<V>| u@ == s && #[trigger] fs[i].funciton.ensures((&u, &fs[i].args), v);
        assert(v == diff_value(cs[i], k, s));
        lemma_relaxes_to_diffusion(fs, k, cs, s.update(i, v), t + 1, (steps - 1) as nat, out);
    }
}

/// The diffused value of interior cell `(x, y)` of `property` with
/// stiffness `k`: the four-equation system whose fixed values are the
/// cell's east, west, north and south neighbours is relaxed from zero for
/// [`DIFFUSION_SWEEPS`] sweeps, and the diffusion equation is then applied
/// to the result with the cell's own value.
fn diffuse_cell<V: Scalar>(n: u16, k: V, x: u16, y: u16, property: &Vec<V>) -> (r: V)
    requires
        cell_count(n as nat) <= 0xffff,
        1 <= x <= n,
        1 <= y <= n,
        property@.len() == cell_count(n as nat),
    ensures
        r == diffused(n as nat, k, x as nat, y as nat, property@),
{
    proof {
        lemma_side_bound(n as nat);
    }
    let east = property[flat_index(n, x + 1, y) as usize];
    let west = property[flat_index(n, x - 1, y) as usize];
    let north = property[flat_index(n, x, y + 1) as usize];
    let south = property[flat_index(n, x, y - 1) as usize];
    let functions = vec![
        GaussSeidelFunction::new(val_after_diff, DiffLinearEquationArgs::new(east, k)),
        GaussSeidelFunction::new(val_after_diff, DiffLinearEquationArgs::new(west, k)),
        GaussSeidelFunction::new(val_after_diff, DiffLinearEquationArgs::new(north, k)),
        GaussSeidelFunction::new(val_after_diff, DiffLinearEquationArgs::new(south, k)),
    ];
    let ghost fs = functions@;
    let ghost cs = neighbour_values(n as nat, x as nat, y as nat, property@);
    let zero = V::zero();
    let initial = vec![zero, zero, zero, zero];
    let ghost start = initial@;
    let surrounding_values = gauss_seidel(functions, initial, DIFFUSION_SWEEPS);
    proof {
        assert(cs[0] == east && cs[1] == west && cs[2] == north && cs[3] == south);
        assert forall|i: int, u: Vec<V>, v: V|
            0 <= i < 4 && #[trigger] fs[i].funciton.ensures((&u, &fs[i].args), v) implies v
                == diff_value(cs[i], k, u@) by {
            assert(fs[i].args.value == cs[i] && fs[i].args.k == k);
        }
        lemma_relaxes_to_diffusion(fs, k, cs, start, 0, DIFFUSION_SWEEPS as nat * 4, surrounding_values@);
        let z = V::spec_zero();
        assert(start == seq![z, z, z, z]);
        assert(DIFFUSION_SWEEPS as nat * 4 == 4 * DIFFUSION_SWEEPS as nat);
    }
    let own = DiffLinearEquationArgs::new(property[flat_index(n, x, y) as usize], k);
    val_after_diff(&surrounding_values, &own)
}

/// Linear interpolation at `p` between the value `v0` at coordinate `c0`
/// and the value `v1` at coordinate `c1`. Where the two coordinates
/// coincide, the value there is `v0`.
pub fn interpolate<V: Scalar>(c0: u16, v0: V, c1: u16, v1: V, p: V) -> (r: V)
    ensures
        r == interpolated(c0, v0, c1, v1, p),
{
    if c0 == c1 {
        v0
    } else {
        let a = V::from_coord(c0);
        let b = V::from_coord(c1);
        v0.plus(v1.minus(v0).times(p.minus(a)).over(b.minus(a)))
    }
}

/// The four lattice points that bound the continuous position `(px, py)`,
/// each clamped into the lattice: top-left, top-right, bottom-left and
/// bottom-right.
pub fn get_surrounding_coords<V: Scalar>(n: u16, px: V, py: V) -> (r: [(u16, u16); 4])
    requires
        n < 0xffff,
    ensures
        r[0].0 as nat == clamp_coord(n as nat, px.spec_floor() as int),
        r[1].0 as nat == clamp_coord(n as nat, px.spec_ceil() as int),
        r[0].1 as nat == clamp_coord(n as nat, py.spec_floor() as int),
        r[2].1 as nat == clamp_coord(n as nat, py.spec_ceil() as int),
        r[2].0 == r[0].0,
        r[3].0 == r[1].0,
        r[1].1 == r[0].1,
        r[3].1 == r[2].1,
{
    let (x0, x1) = lattice_bounds(n, px.floor_coord(), px.ceil_coord());
    let (y0, y1) = lattice_bounds(n, py.floor_coord(), py.ceil_coord());
    [(x0, y0), (x1, y0), (x0, y1), (x1, y1)]
}

/// The advected value of interior cell `(x, y)`: the position
/// `(x - vel_x * dt, y - vel_y * dt)` is traced back and `property` is
/// interpolated bilinearly there from its four bounding lattice points.
fn advect_cell<V: Scalar>(n: u16, dt: V, x: u16, y: u16, vel_x: V, vel_y: V, property: &Vec<V>) -> (r: V)
    requires
        cell_count(n as nat) <= 0xffff,
        1 <= x <= n,
        1 <= y <= n,
        property@.len() == cell_count(n as nat),
    ensures
        r == advected(n as nat, dt, x, y, vel_x, vel_y, property@),
{
    proof {
        lemma_side_bound(n as nat);
        reveal(advected);
    }
    let px = V::from_coord(x).minus(vel_x.times(dt));
    let py = V::from_coord(y).minus(vel_y.times(dt));
    let c = get_surrounding_coords(n, px, py);
    let top_left = property[flat_index(n, c[0].0, c[0].1) as usize];
    let top_right = property[flat_index(n, c[1].0, c[1].1) as usize];
    let bottom_left = property[flat_index(n, c[2].0, c[2].1) as usize];
    let bottom_right = property[flat_index(n, c[3].0, c[3].1) as usize];
    let top = interpolate(c[0].0, top_left, c[1].0, top_right, px);
    let bottom = interpolate(c[2].0, bottom_left, c[3].0, bottom_right, px);
    interpolate(c[0].1, top, c[2].1, bottom, py)
}

/// Writes the diffused value of every interior cell of `source` into the
/// same cell of `target`; border cells of `target` are left as they were.
fn diffuse_field<V: Scalar>(n: u16, k: V, source: &Vec<V>, target: &mut Vec<V>)
    requires
        cell_count(n as nat) <= 0xffff,
        source@.len() == cell_count(n as nat),
        old(target)@.len() == cell_count(n as nat),
    ensures
        final(target)@ == diffused_buffer(n as nat, k, source@, old(target)@),
{
    proof {
        lemma_side_bound(n as nat);
    }
    let ghost orig = target@;
    let ghost expected = |m: int|
        diffused(n as nat, k, column_of(n as nat, m as nat), row_of(n as nat, m as nat), source@);
    proof {
        lemma_pass_start(n as nat, expected, orig);
    }
    let mut i: u16 = 1;
    while i < n + 1
        invariant
            1 <= i <= n + 1,
            n <= 253,
            cell_count(n as nat) <= 0xffff,
            source@.len() == cell_count(n as nat),
            pass_progress(n as nat, expected, orig, target@, i as nat, 1),
            forall|m: int| #[trigger] expected(m) == diffused(n as nat, k, column_of(n as nat, m as nat), row_of(n as nat, m as nat), source@),
        decreases n + 1 - i,
    {
        let mut j: u16 = 1;
        while j < n + 1
            invariant
                1 <= i <= n,
                1 <= j <= n + 1,
                n <= 253,
                cell_count(n as nat) <= 0xffff,
                source@.len() == cell_count(n as nat),
                pass_progress(n as nat, expected, orig, target@, i as nat, j as nat),
                forall|m: int| #[trigger] expected(m) == diffused(n as nat, k, column_of(n as nat, m as nat), row_of(n as nat, m as nat), source@),
            decreases n + 1 - j,
        {
            let index = flat_index(n, i, j) as usize;
            let value = diffuse_cell(n, k, i, j, source);
            proof {
                lemma_index_coords(n as nat, i as nat, j as nat);
                lemma_pass_step(n as nat, expected, orig, target@, i as nat, j as nat);
                assert(value == expected(index as int));
            }
            target.set(index, value);
            j += 1;
        }
        proof {
            lemma_pass_column(n as nat, expected, orig, target@, i as nat);
        }
        i += 1;
    }
    proof {
        lemma_pass_done(n as nat, expected, orig, target@);
    }
    assert(target@ =~= diffused_buffer(n as nat, k, source@, orig));
}

/// Writes the advected value of every interior cell of `source` into the
/// same cell of `target`, tracing back along the velocity field
/// `(vel_x, vel_y)`; border cells of `target` are left as they were.
fn advect_field<V: Scalar>(
    n: u16,
    dt: V,
    vel_x: &Vec<V>,
    vel_y: &Vec<V>,
    source: &Vec<V>,
    target: &mut Vec<V>,
)
    requires
        cell_count(n as nat) <= 0xffff,
        vel_x@.len() == cell_count(n as nat),
        vel_y@.len() == cell_count(n as nat),
        source@.len() == cell_count(n as nat),
        old(target)@.len() == cell_count(n as nat),
    ensures
        final(target)@ == advected_buffer(n as nat, dt, vel_x@, vel_y@, source@, old(target)@),
{
    proof {
        lemma_side_bound(n as nat);
    }
    let ghost orig = target@;
    let ghost expected = |m: int|
        advected(
            n as nat,
            dt,
            column_of(n as nat, m as nat) as u16,
            row_of(n as nat, m as nat) as u16,
            vel_x@[m],
            vel_y@[m],
            source@,
        );
    proof {
        lemma_pass_start(n as nat, expected, orig);
    }
    let mut i: u16 = 1;
    while i < n + 1
        invariant
            1 <= i <= n + 1,
            n <= 253,
            cell_count(n as nat) <= 0xffff,
            vel_x@.len() == cell_count(n as nat),
            vel_y@.len() == cell_count(n as nat),
            source@.len() == cell_count(n as nat),
            pass_progress(n as nat, expected, orig, target@, i as nat, 1),
            forall|m: int|
                #[trigger] expected(m) == advected(
                    n as nat,
                    dt,
                    column_of(n as nat, m as nat) as u16,
                    row_of(n as nat, m as nat) as u16,
                    vel_x@[m],
                    vel_y@[m],
                    source@,
                ),
        decreases n + 1 - i,
    {
        let mut j: u16 = 1;
        while j < n + 1
            invariant
                1 <= i <= n,
                1 <= j <= n + 1,
                n <= 253,
                cell_count(n as nat) <= 0xffff,
                vel_x@.len() == cell_count(n as nat),
                vel_y@.len() == cell_count(n as nat),
                source@.len() == cell_count(n as nat),
                pass_progress(n as nat, expected, orig, target@, i as nat, j as nat),
                forall|m: int|
                #[trigger] expected(m) == advected(
                    n as nat,
                    dt,
                    column_of(n as nat, m as nat) as u16,
                    row_of(n as nat, m as nat) as u16,
                    vel_x@[m],
                    vel_y@[m],
                    source@,
                ),
            decreases n + 1 - j,
        {
            let index = flat_index(n, i, j) as usize;
            let value = advect_cell(n, dt, i, j, vel_x[index], vel_y[index], source);
            proof {
                lemma_index_coords(n as nat, i as nat, j as nat);
                lemma_pass_step(n as nat, expected, orig, target@, i as nat, j as nat);
                assert(value == expected(index as int));
            }
            target.set(index, value);
            j += 1;
        }
        proof {
            lemma_pass_column(n as nat, expected, orig, target@, i as nat);
        }
        i += 1;
    }
    proof {
        lemma_pass_done(n as nat, expected, orig, target@);
    }
    assert(target@ =~= advected_buffer(n as nat, dt, vel_x@, vel_y@, source@, orig));
}

/// Advects both velocity components from `source_x` and `source_y` in
/// place, cell by cell: at each interior cell the x component is advected
/// first, and the y component is then advected with the x component already
/// updated at that cell. Border cells are left as they were.
fn advect_velocity_fields<V: Scalar>(
    n: u16,
    dt: V,
    source_x: &Vec<V>,
    source_y: &Vec<V>,
    vel_x: &mut Vec<V>,
    vel_y: &mut Vec<V>,
)
    requires
        cell_count(n as nat) <= 0xffff,
        source_x@.len() == cell_count(n as nat),
        source_y@.len() == cell_count(n as nat),
        old(vel_x)@.len() == cell_count(n as nat),
        old(vel_y)@.len() == cell_count(n as nat),
    ensures
        final(vel_x)@ == advected_buffer(n as nat, dt, old(vel_x)@, old(vel_y)@, source_x@, old(vel_x)@),
        final(vel_y)@ == advected_buffer(n as nat, dt, final(vel_x)@, old(vel_y)@, source_y@, old(vel_y)@),
{
    proof {
        lemma_side_bound(n as nat);
    }
    let ghost vx0 = vel_x@;
    let ghost vy0 = vel_y@;
    let ghost expected_x = |m: int|
        advected(
            n as nat,
            dt,
            column_of(n as nat, m as nat) as u16,
            row_of(n as nat, m as nat) as u16,
            vx0[m],
            vy0[m],
            source_x@,
        );
    let ghost expected_y = |m: int|
        advected(
            n as nat,
            dt,
            column_of(n as nat, m as nat) as u16,
            row_of(n as nat, m as nat) as u16,
            expected_x(m),
            vy0[m],
            source_y@,
        );
    proof {
        lemma_pass_start(n as nat, expected_x, vx0);
        lemma_pass_start(n as nat, expected_y, vy0);
    }
    let mut i: u16 = 1;
    while i < n + 1
        invariant
            1 <= i <= n + 1,
            n <= 253,
            cell_count(n as nat) <= 0xffff,
            source_x@.len() == cell_count(n as nat),
            source_y@.len() == cell_count(n as nat),
            pass_progress(n as nat, expected_x, vx0, vel_x@, i as nat, 1),
            pass_progress(n as nat, expected_y, vy0, vel_y@, i as nat, 1),
            forall|m: int|
                #[trigger] expected_x(m) == advected(
                    n as nat,
                    dt,
                    column_of(n as nat, m as nat) as u16,
                    row_of(n as nat, m as nat) as u16,
                    vx0[m],
                    vy0[m],
                    source_x@,
                ),
            forall|m: int|
                #[trigger] expected_y(m) == advected(
                    n as nat,
                    dt,
                    column_of(n as nat, m as nat) as u16,
                    row_of(n as nat, m as nat) as u16,
                    expected_x(m),
                    vy0[m],
                    source_y@,
                ),
        decreases n + 1 - i,
    {
        let mut j: u16 = 1;
        while j < n + 1
            invariant
                1 <= i <= n,
                1 <= j <= n + 1,
                n <= 253,
                cell_count(n as nat) <= 0xffff,
                source_x@.len() == cell_count(n as nat),
                source_y@.len() == cell_count(n as nat),
                pass_progress(n as nat, expected_x, vx0, vel_x@, i as nat, j as nat),
                pass_progress(n as nat, expected_y, vy0, vel_y@, i as nat, j as nat),
                forall|m: int|
                    #[trigger] expected_x(m) == advected(
                        n as nat,
                        dt,
                        column_of(n as nat, m as nat) as u16,
                        row_of(n as nat, m as nat) as u16,
                        vx0[m],
                        vy0[m],
                        source_x@,
                    ),
                forall|m: int|
                    #[trigger] expected_y(m) == advected(
                        n as nat,
                        dt,
                        column_of(n as nat, m as nat) as u16,
                        row_of(n as nat, m as nat) as u16,
                        expected_x(m),
                        vy0[m],
                        source_y@,
                    ),
            decreases n + 1 - j,
        {
            let index = flat_index(n, i, j) as usize;
            proof {
                lemma_index_coords(n as nat, i as nat, j as nat);
                lemma_pass_step(n as nat, expected_x, vx0, vel_x@, i as nat, j as nat);
                lemma_pass_step(n as nat, expected_y, vy0, vel_y@, i as nat, j as nat);
            }
            let new_x = advect_cell(n, dt, i, j, vel_x[index], vel_y[index], source_x);
            proof {
                assert(vel_x@[index as int] == vx0[index as int]);
                assert(vel_y@[index as int] == vy0[index as int]);
                assert(new_x == expected_x(index as int));
            }
            vel_x.set(index, new_x);
            let new_y = advect_cell(n, dt, i, j, vel_x[index], vel_y[index], source_y);
            proof {
                assert(new_y == expected_y(index as int));
            }
            vel_y.set(index, new_y);
            j += 1;
        }
        proof {
            lemma_pass_column(n as nat, expected_x, vx0, vel_x@, i as nat);
            lemma_pass_column(n as nat, expected_y, vy0, vel_y@, i as nat);
        }
        i += 1;
    }
    proof {
        lemma_pass_done(n as nat, expected_x, vx0, vel_x@);
        lemma_pass_done(n as nat, expected_y, vy0, vel_y@);
    }
    assert(vel_x@ =~= advected_buffer(n as nat, dt, vx0, vy0, source_x@, vx0));
    assert(vel_y@ =~= advected_buffer(n as nat, dt, vel_x@, vy0, source_y@, vy0));
}

/// A vector of `len` copies of `value`.
fn filled<V: Copy>(value: V, len: usize) -> (r: Vec<V>)
    ensures
        r@ == Seq::new(len as nat, |i: int| value),
{
    let mut r: Vec<V> = Vec::new();
    let mut i: usize = 0;
    while i < len
        invariant
            i <= len,
            r@ == Seq::new(i as nat, |k: int| value),
        decreases len - i,
    {
        r.push(value);
        i += 1;
    }
    r
}

/// The fixed size of a simulation: `n` interior cells per side, and the
/// diffusion rate.
pub struct FluidConfig<V> {
    n: u16,
    diffusion: V,
}

impl<V> FluidConfig<V> {
    /// Interior side length.
    pub closed spec fn spec_n(&self) -> nat {
        self.n as nat
    }

    /// Diffusion rate.
    pub closed spec fn spec_diffusion(&self) -> V {
        self.diffusion
    }

    pub fn new(n: u16, diffusion: V) -> (r: FluidConfig<V>)
        ensures
            r.spec_n() == n,
            r.spec_diffusion() == diffusion,
    {
        FluidConfig { n, diffusion }
    }
}

/// A fluid on a square lattice: current and initial buffers of the two
/// velocity components and of the density, and the time step.
pub struct Fluid<V> {
    config: FluidConfig<V>,
    dt: V,
    velocity_x: Vec<V>,
    velocity_y: Vec<V>,
    initial_velocity_x: Vec<V>,
    initial_velocity_y: Vec<V>,
    density: Vec<V>,
    initial_density: Vec<V>,
    size: u16,
}

impl<V> Fluid<V> {
    /// Interior side length.
    pub closed spec fn spec_n(&self) -> nat {
        self.config.n as nat
    }

    /// Number of cells, border included.
    pub closed spec fn spec_size(&self) -> nat {
        self.size as nat
    }

    /// Diffusion rate.
    pub closed spec fn spec_diffusion(&self) -> V {
        self.config.diffusion
    }

    /// Time step.
    pub closed spec fn spec_dt(&self) -> V {
        self.dt
    }

    pub closed spec fn spec_velocity_x(&self) -> Seq<V> {
        self.velocity_x@
    }

    pub closed spec fn spec_velocity_y(&self) -> Seq<V> {
        self.velocity_y@
    }

    pub closed spec fn spec_initial_velocity_x(&self) -> Seq<V> {
        self.initial_velocity_x@
    }

    pub closed spec fn spec_initial_velocity_y(&self) -> Seq<V> {
        self.initial_velocity_y@
    }

    pub closed spec fn spec_density(&self) -> Seq<V> {
        self.density@
    }

    pub closed spec fn spec_initial_density(&self) -> Seq<V> {
        self.initial_density@
    }

    /// The lattice fits the `u16` cell count, and every buffer holds one
    /// value per cell.
    pub open spec fn wf(&self) -> bool {
        &&& cell_count(self.spec_n()) <= 0xffff
        &&& self.spec_size() == cell_count(self.spec_n())
        &&& self.spec_velocity_x().len() == self.spec_size()
        &&& self.spec_velocity_y().len() == self.spec_size()
        &&& self.spec_initial_velocity_x().len() == self.spec_size()
        &&& self.spec_initial_velocity_y().len() == self.spec_size()
        &&& self.spec_density().len() == self.spec_size()
        &&& self.spec_initial_density().len() == self.spec_size()
    }
}

impl<V: Scalar> Fluid<V> {
    /// Stiffness of the diffusion equations: `dt * diffusion`.
    pub open spec fn stiffness(&self) -> V {
        self.spec_dt().spec_times(self.spec_diffusion())
    }

    /// The x velocity diffused from the initial x velocity.
    pub open spec fn diffused_velocity_x(&self) -> Seq<V> {
        diffused_buffer(self.spec_n(), self.stiffness(), self.spec_initial_velocity_x(), self.spec_velocity_x())
    }

    /// The y velocity diffused from the initial y velocity.
    pub open spec fn diffused_velocity_y(&self) -> Seq<V> {
        diffused_buffer(self.spec_n(), self.stiffness(), self.spec_initial_velocity_y(), self.spec_velocity_y())
    }

    /// The x velocity advected from the diffused x velocity, written over the
    /// initial x velocity, which is then the current one.
    pub open spec fn advected_velocity_x(&self) -> Seq<V> {
        advected_buffer(
            self.spec_n(),
            self.spec_dt(),
            self.spec_initial_velocity_x(),
            self.spec_initial_velocity_y(),
            self.diffused_velocity_x(),
            self.spec_initial_velocity_x(),
        )
    }

    /// The y velocity advected from the diffused y velocity, cell by cell
    /// after the x velocity of the same cell.
    pub open spec fn advected_velocity_y(&self) -> Seq<V> {
        advected_buffer(
            self.spec_n(),
            self.spec_dt(),
            self.advected_velocity_x(),
            self.spec_initial_velocity_y(),
            self.diffused_velocity_y(),
            self.spec_initial_velocity_y(),
        )
    }

    /// The density diffused from the initial density.
    pub open spec fn diffused_density(&self) -> Seq<V> {
        diffused_buffer(self.spec_n(), self.stiffness(), self.spec_initial_density(), self.spec_density())
    }

    /// The density advected from the diffused density along the velocity
    /// `(vel_x, vel_y)`, written over the initial density.
    pub open spec fn advected_density(&self, vel_x: Seq<V>, vel_y: Seq<V>) -> Seq<V> {
        advected_buffer(
            self.spec_n(),
            self.spec_dt(),
            vel_x,
            vel_y,
            self.diffused_density(),
            self.spec_initial_density(),
        )
    }

    /// A fluid with all six buffers filled with zero and the default time
    /// step `1 / DEFAULT_DT_DIVISOR`.
    pub fn new(config: FluidConfig<V>) -> (r: Fluid<V>)
        requires
            cell_count(config.spec_n()) <= 0xffff,
        ensures
            r.wf(),
            r.spec_n() == config.spec_n(),
            r.spec_diffusion() == config.spec_diffusion(),
            r.spec_size() == cell_count(config.spec_n()),
            r.spec_dt() == V::spec_one().spec_over(V::spec_from_coord(DEFAULT_DT_DIVISOR)),
            r.spec_density() == Seq::new(r.spec_size(), |i: int| V::spec_zero()),
            r.spec_initial_density() == r.spec_density(),
            r.spec_velocity_x() == r.spec_density(),
            r.spec_velocity_y() == r.spec_density(),
            r.spec_initial_velocity_x() == r.spec_density(),
            r.spec_initial_velocity_y() == r.spec_density(),
    {
        proof {
            lemma_side_bound(config.n as nat);
        }
        let size: u16 = (config.n + 2) * (config.n + 2);
        let vector_size = size as usize;
        let zero = V::zero();
        let dt = V::one().over(V::from_coord(DEFAULT_DT_DIVISOR));
        Fluid {
            config,
            dt,
            velocity_x: filled(zero, vector_size),
            velocity_y: filled(zero, vector_size),
            initial_velocity_x: filled(zero, vector_size),
            initial_velocity_y: filled(zero, vector_size),
            density: filled(zero, vector_size),
            initial_density: filled(zero, vector_size),
            size,
        }
    }

    /// Flat offset of lattice point `(x, y)`.
    pub fn ix(&self, x: u16, y: u16) -> (r: u16)
        requires
            self.wf(),
            in_lattice(self.spec_n(), x as nat, y as nat),
        ensures
            r as nat == index_of(self.spec_n(), x as nat, y as nat),
            (r as nat) < self.spec_size(),
    {
        flat_index(self.config.n, x, y)
    }

    /// Diffuses the initial density into the current density.
    fn diffuse_density(&mut self)
        requires
            old(self).wf(),
        ensures
            final(self).wf(),
            final(self).config == old(self).config,
            final(self).dt == old(self).dt,
            final(self).size == old(self).size,
            final(self).density@ == old(self).diffused_density(),
            final(self).velocity_x == old(self).velocity_x,
            final(self).velocity_y == old(self).velocity_y,
            final(self).initial_velocity_x == old(self).initial_velocity_x,
            final(self).initial_velocity_y == old(self).initial_velocity_y,
            final(self).initial_density == old(self).initial_density,
    {
        let k = self.dt.times(self.config.diffusion);
        diffuse_field(self.config.n, k, &self.initial_density, &mut self.density);
    }

    /// Diffuses the initial velocity components into the current ones.
    fn diffuse_velocity(&mut self)
        requires
            old(self).wf(),
        ensures
            final(self).wf(),
            final(self).config == old(self).config,
            final(self).dt == old(self).dt,
            final(self).size == old(self).size,
            final(self).velocity_x@ == old(self).diffused_velocity_x(),
            final(self).velocity_y@ == old(self).diffused_velocity_y(),
            final(self).initial_velocity_x == old(self).initial_velocity_x,
            final(self).initial_velocity_y == old(self).initial_velocity_y,
            final(self).density == old(self).density,
            final(self).initial_density == old(self).initial_density,
    {
        let k = self.dt.times(self.config.diffusion);
        diffuse_field(self.config.n, k, &self.initial_velocity_x, &mut self.velocity_x);
        diffuse_field(self.config.n, k, &self.initial_velocity_y, &mut self.velocity_y);
    }

    /// Advects the initial density into the current density along the
    /// current velocity.
    fn advect_density(&mut self)
        requires
            old(self).wf(),
        ensures
            final(self).wf(),
            final(self).config == old(self).config,
            final(self).dt == old(self).dt,
            final(self).size == old(self).size,
            final(self).density@ == advected_buffer(
                old(self).spec_n(),
                old(self).dt,
                old(self).velocity_x@,
                old(self).velocity_y@,
                old(self).initial_density@,
                old(self).density@,
            ),
            final(self).velocity_x == old(self).velocity_x,
            final(self).velocity_y == old(self).velocity_y,
            final(self).initial_velocity_x == old(self).initial_velocity_x,
            final(self).initial_velocity_y == old(self).initial_velocity_y,
            final(self).initial_density == old(self).initial_density,
    {
        advect_field(
            self.config.n,
            self.dt,
            &self.velocity_x,
            &self.velocity_y,
            &self.initial_density,
            &mut self.density,
        );
    }

    /// Advects the initial velocity components into the current ones along
    /// the current velocity; at each cell the y component is advected with
    /// the x component of that cell already updated.
    fn advect_velocity(&mut self)
        requires
            old(self).wf(),
        ensures
            final(self).wf(),
            final(self).config == old(self).config,
            final(self).dt == old(self).dt,
            final(self).size == old(self).size,
            final(self).velocity_x@ == advected_buffer(
                old(self).spec_n(),
                old(self).dt,
                old(self).velocity_x@,
                old(self).velocity_y@,
                old(self).initial_velocity_x@,
                old(self).velocity_x@,
            ),
            final(self).velocity_y@ == advected_buffer(
                old(self).spec_n(),
                old(self).dt,
                final(self).velocity_x@,
                old(self).velocity_y@,
                old(self).initial_velocity_y@,
                old(self).velocity_y@,
            ),
            final(self).initial_velocity_x == old(self).initial_velocity_x,
            final(self).initial_velocity_y == old(self).initial_velocity_y,
            final(self).density == old(self).density,
            final(self).initial_density == old(self).initial_density,
    {
        advect_velocity_fields(
            self.config.n,
            self.dt,
            &self.initial_velocity_x,
            &self.initial_velocity_y,
            &mut self.velocity_x,
            &mut self.velocity_y,
        );
    }

    /// Diffuses the density, swaps current and initial density, advects,
    /// and swaps them back: the current density is then the diffused one,
    /// and the initial density the one advected from it.
    fn density_step(&mut self)
        requires
            old(self).wf(),
        ensures
            final(self).wf(),
            final(self).config == old(self).config,
            final(self).dt == old(self).dt,
            final(self).size == old(self).size,
            final(self).density@ == old(self).diffused_density(),
            final(self).initial_density@ == old(self).advected_density(old(self).velocity_x@, old(self).velocity_y@),
            final(self).velocity_x == old(self).velocity_x,
            final(self).velocity_y == old(self).velocity_y,
            final(self).initial_velocity_x == old(self).initial_velocity_x,
            final(self).initial_velocity_y == old(self).initial_velocity_y,
    {
        self.diffuse_density();
        std::mem::swap(&mut self.density, &mut self.initial_density);
        self.advect_density();
        std::mem::swap(&mut self.density, &mut self.initial_density);
    }

    /// Diffuses the velocity, swaps current and initial velocity, advects,
    /// and swaps them back: the current velocity is then the diffused one,
    /// and the initial velocity the one advected from it.
    fn velocity_step(&mut self)
        requires
            old(self).wf(),
        ensures
            final(self).wf(),
            final(self).config == old(self).config,
            final(self).dt == old(self).dt,
            final(self).size == old(self).size,
            final(self).velocity_x@ == old(self).diffused_velocity_x(),
            final(self).velocity_y@ == old(self).diffused_velocity_y(),
            final(self).initial_velocity_x@ == old(self).advected_velocity_x(),
            final(self).initial_velocity_y@ == old(self).advected_velocity_y(),
            final(self).density == old(self).density,
            final(self).initial_density == old(self).initial_density,
    {
        self.diffuse_velocity();
        std::mem::swap(&mut self.velocity_x, &mut self.initial_velocity_x);
        std::mem::swap(&mut self.velocity_y, &mut self.initial_velocity_y);
        self.advect_velocity();
        std::mem::swap(&mut self.velocity_x, &mut self.initial_velocity_x);
        std::mem::swap(&mut self.velocity_y, &mut self.initial_velocity_y);
    }

    /// Adds `dt * value` to cell `index` of the initial density.
    pub fn add_density(&mut self, index: usize, value: V)
        requires
            old(self).wf(),
            index < old(self).spec_size(),
        ensures
            final(self).wf(),
            final(self).spec_n() == old(self).spec_n(),
            final(self).spec_size() == old(self).spec_size(),
            final(self).spec_diffusion() == old(self).spec_diffusion(),
            final(self).spec_dt() == old(self).spec_dt(),
            final(self).spec_initial_density() == old(self).spec_initial_density().update(
                index as int,
                old(self).spec_initial_density()[index as int].spec_plus(
                    old(self).spec_dt().spec_times(value),
                ),
            ),
            final(self).spec_velocity_x() == old(self).spec_velocity_x(),
            final(self).spec_velocity_y() == old(self).spec_velocity_y(),
            final(self).spec_initial_velocity_x() == old(self).spec_initial_velocity_x(),
            final(self).spec_initial_velocity_y() == old(self).spec_initial_velocity_y(),
            final(self).spec_density() == old(self).spec_density(),
    {
        let updated = self.initial_density[index].plus(self.dt.times(value));
        self.initial_density.set(index, updated);
    }

    /// Adds `dt * value_x` and `dt * value_y` to cell `index` of the initial
    /// velocity components.
    pub fn add_velocity(&mut self, index: usize, value_x: V, value_y: V)
        requires
            old(self).wf(),
            index < old(self).spec_size(),
        ensures
            final(self).wf(),
            final(self).spec_n() == old(self).spec_n(),
            final(self).spec_size() == old(self).spec_size(),
            final(self).spec_diffusion() == old(self).spec_diffusion(),
            final(self).spec_dt() == old(self).spec_dt(),
            final(self).spec_initial_velocity_x() == old(self).spec_initial_velocity_x().update(
                index as int,
                old(self).spec_initial_velocity_x()[index as int].spec_plus(
                    old(self).spec_dt().spec_times(value_x),
                ),
            ),
            final(self).spec_initial_velocity_y() == old(self).spec_initial_velocity_y().update(
                index as int,
                old(self).spec_initial_velocity_y()[index as int].spec_plus(
                    old(self).spec_dt().spec_times(value_y),
                ),
            ),
            final(self).spec_velocity_x() == old(self).spec_velocity_x(),
            final(self).spec_velocity_y() == old(self).spec_velocity_y(),
            final(self).spec_density() == old(self).spec_density(),
            final(self).spec_initial_density() == old(self).spec_initial_density(),
    {
        let updated_x = self.initial_velocity_x[index].plus(self.dt.times(value_x));
        self.initial_velocity_x.set(index, updated_x);
        let updated_y = self.initial_velocity_y[index].plus(self.dt.times(value_y));
        self.initial_velocity_y.set(index, updated_y);
    }

    /// Advances the simulation by one frame: a velocity step, then a density
    /// step that advects along the velocity the first one settled. Cell
    /// count and buffer lengths are kept.
    pub fn simulate(&mut self)
        requires
            old(self).wf(),
        ensures
            final(self).wf(),
            final(self).spec_n() == old(self).spec_n(),
            final(self).spec_size() == old(self).spec_size(),
            final(self).spec_diffusion() == old(self).spec_diffusion(),
            final(self).spec_dt() == old(self).spec_dt(),
            final(self).spec_velocity_x() == old(self).diffused_velocity_x(),
            final(self).spec_velocity_y() == old(self).diffused_velocity_y(),
            final(self).spec_initial_velocity_x() == old(self).advected_velocity_x(),
            final(self).spec_initial_velocity_y() == old(self).advected_velocity_y(),
            final(self).spec_density() == old(self).diffused_density(),
            final(self).spec_initial_density() == old(self).advected_density(
                old(self).diffused_velocity_x(),
                old(self).diffused_velocity_y(),
            ),
    {
        self.velocity_step();
        self.density_step();
    }

    /// The current density of cell `index`.
    pub fn get_density_at_index(&self, index: usize) -> (r: V)
        requires
            self.wf(),
            index < self.spec_size(),
        ensures
            r == self.spec_density()[index as int],
    {
        self.density[index]
    }

    /// Interior side length.
    pub fn get_n(&self) -> (r: u16)
        ensures
            r as nat == self.spec_n(),
    {
        self.config.n
    }

    /// Number of cells, border included.
    pub fn get_size(&self) -> (r: u16)
        ensures
            r as nat == self.spec_size(),
    {
        self.size
    }

    /// Replaces the time step used by later injections and steps.
    pub fn set_dt(&mut self, dt: V)
        requires
            old(self).wf(),
        ensures
            final(self).wf(),
            final(self).spec_n() == old(self).spec_n(),
            final(self).spec_size() == old(self).spec_size(),
            final(self).spec_diffusion() == old(self).spec_diffusion(),
            final(self).spec_dt() == dt,
            final(self).spec_velocity_x() == old(self).spec_velocity_x(),
            final(self).spec_velocity_y() == old(self).spec_velocity_y(),
            final(self).spec_initial_velocity_x() == old(self).spec_initial_velocity_x(),
            final(self).spec_initial_velocity_y() == old(self).spec_initial_velocity_y(),
            final(self).spec_density() == old(self).spec_density(),
            final(self).spec_initial_density() == old(self).spec_initial_density(),
    {
        self.dt = dt;
    }
}

} // verus!
