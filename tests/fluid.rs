use fluid_sim::fluid::{get_surrounding_coords, interpolate};
use fluid_sim::grid::{clamp_to_lattice, flat_index, lattice_bounds};
use fluid_sim::{val_after_diff, DiffLinearEquationArgs, Fluid, FluidConfig, Scalar};

#[derive(Clone, Copy, Debug, PartialEq)]
struct Real(f64);

impl Scalar for Real {
    fn spec_zero() -> Self {
        Real(0.0)
    }
    fn spec_one() -> Self {
        Real(1.0)
    }
    fn spec_plus(self, other: Self) -> Self {
        Real(self.0 + other.0)
    }
    fn spec_minus(self, other: Self) -> Self {
        Real(self.0 - other.0)
    }
    fn spec_times(self, other: Self) -> Self {
        Real(self.0 * other.0)
    }
    fn spec_over(self, other: Self) -> Self {
        Real(self.0 / other.0)
    }
    fn spec_from_coord(c: u16) -> Self {
        Real(c as f64)
    }
    fn spec_floor(self) -> i64 {
        self.0.floor() as i64
    }
    fn spec_ceil(self) -> i64 {
        self.0.ceil() as i64
    }
    fn zero() -> Self {
        Real(0.0)
    }
    fn one() -> Self {
        Real(1.0)
    }
    fn plus(self, other: Self) -> Self {
        Real(self.0 + other.0)
    }
    fn minus(self, other: Self) -> Self {
        Real(self.0 - other.0)
    }
    fn times(self, other: Self) -> Self {
        Real(self.0 * other.0)
    }
    fn over(self, other: Self) -> Self {
        Real(self.0 / other.0)
    }
    fn from_coord(c: u16) -> Self {
        Real(c as f64)
    }
    fn floor_coord(self) -> i64 {
        self.0.floor() as i64
    }
    fn ceil_coord(self) -> i64 {
        self.0.ceil() as i64
    }
}

fn fluid(n: u16, diffusion: f64) -> Fluid<Real> {
    Fluid::new(FluidConfig::new(n, Real(diffusion)))
}

fn density(f: &Fluid<Real>, x: u16, y: u16) -> f64 {
    f.get_density_at_index(f.ix(x, y) as usize).0
}

#[test]
fn index_is_a_bijection_onto_the_buffer() {
    let f = fluid(3, 0.0);
    assert_eq!(f.get_size(), 25);
    assert_eq!(f.get_n(), 3);
    assert_eq!(f.ix(0, 0), 0);
    assert_eq!(f.ix(4, 4), 24);
    assert_eq!(f.ix(2, 1), 7);
    let mut seen = vec![false; 25];
    for y in 0..5u16 {
        for x in 0..5u16 {
            let i = f.ix(x, y) as usize;
            assert!(!seen[i]);
            seen[i] = true;
        }
    }
    assert!(seen.iter().all(|s| *s));
}

#[test]
fn flat_index_matches_row_major_layout() {
    assert_eq!(flat_index(3, 3, 2), 13);
    assert_eq!(flat_index(0, 1, 1), 3);
}

#[test]
fn new_fluid_is_zero_filled() {
    let f = fluid(4, 0.5);
    assert_eq!(f.get_size(), 36);
    for i in 0..36usize {
        assert_eq!(f.get_density_at_index(i), Real(0.0));
    }
}

#[test]
fn zero_diffusion_step_scales_injection_by_dt() {
    let mut f = fluid(3, 0.0);
    let center = f.ix(2, 2) as usize;
    f.add_density(center, Real(100.0));
    f.simulate();
    assert_eq!(density(&f, 2, 2), 10.0);
    for y in 0..5u16 {
        for x in 0..5u16 {
            if (x, y) != (2, 2) {
                assert_eq!(density(&f, x, y), 0.0);
            }
        }
    }
}

#[test]
fn diffusion_spreads_to_neighbours_and_leaves_border_zero() {
    let mut f = fluid(3, 1.0);
    let center = f.ix(2, 2) as usize;
    f.add_density(center, Real(100.0));
    f.simulate();
    assert!(density(&f, 1, 2) > 0.0);
    assert!(density(&f, 3, 2) > 0.0);
    assert!(density(&f, 2, 1) > 0.0);
    assert!(density(&f, 2, 3) > 0.0);
    for k in 0..5u16 {
        assert_eq!(density(&f, k, 0), 0.0);
        assert_eq!(density(&f, k, 4), 0.0);
        assert_eq!(density(&f, 0, k), 0.0);
        assert_eq!(density(&f, 4, k), 0.0);
    }
}

#[test]
fn zero_dt_makes_diffusion_a_no_op() {
    let mut f = fluid(3, 2.0);
    let center = f.ix(2, 2) as usize;
    f.add_density(center, Real(50.0));
    f.set_dt(Real(0.0));
    f.simulate();
    // dt = 0 was set after the injection of 0.1 * 50
    assert_eq!(density(&f, 2, 2), 5.0);
    assert_eq!(density(&f, 1, 2), 0.0);
}

#[test]
fn injections_accumulate() {
    let mut a = fluid(3, 0.0);
    let mut b = fluid(3, 0.0);
    a.set_dt(Real(0.5));
    b.set_dt(Real(0.5));
    let i = a.ix(1, 3) as usize;
    a.add_density(i, Real(2.0));
    a.add_density(i, Real(4.0));
    b.add_density(i, Real(6.0));
    a.simulate();
    b.simulate();
    assert_eq!(density(&a, 1, 3), 3.0);
    assert_eq!(density(&a, 1, 3), density(&b, 1, 3));
}

#[test]
fn velocity_injection_moves_density() {
    let mut f = fluid(5, 0.0);
    f.set_dt(Real(1.0));
    let src = f.ix(2, 3) as usize;
    let dst = f.ix(3, 3) as usize;
    f.add_density(src, Real(8.0));
    f.add_velocity(dst, Real(1.0), Real(0.0));
    f.simulate();
    // the advected density is left in the initial buffer after the swap back
    assert_eq!(density(&f, 3, 3), 0.0);
    assert_eq!(density(&f, 2, 3), 8.0);
    f.simulate();
    // cell (3, 3) traced back one column to (2, 3) in the first frame
    assert_eq!(density(&f, 3, 3), 8.0);
}

#[test]
fn zero_velocity_keeps_every_cell() {
    let mut f = fluid(4, 0.0);
    f.set_dt(Real(1.0));
    for y in 1..5u16 {
        for x in 1..5u16 {
            let i = f.ix(x, y) as usize;
            f.add_density(i, Real((x * 10 + y) as f64));
        }
    }
    f.simulate();
    for y in 1..5u16 {
        for x in 1..5u16 {
            assert_eq!(density(&f, x, y), (x * 10 + y) as f64);
        }
    }
}

#[test]
fn val_after_diff_applies_the_equation() {
    let args = DiffLinearEquationArgs::new(Real(3.0), Real(1.0));
    let v = vec![Real(1.0), Real(2.0), Real(3.0), Real(4.0)];
    // (3 + 1 * 10) / 2
    assert_eq!(val_after_diff(&v, &args), Real(6.5));
    let none = DiffLinearEquationArgs::new(Real(3.0), Real(0.0));
    assert_eq!(val_after_diff(&v, &none), Real(3.0));
}

#[test]
fn interpolate_between_and_on_coincident_coordinates() {
    assert_eq!(interpolate(2, Real(10.0), 3, Real(20.0), Real(2.25)), Real(12.5));
    assert_eq!(interpolate(4, Real(10.0), 4, Real(20.0), Real(7.0)), Real(10.0));
}

#[test]
fn surrounding_coords_are_clamped_into_the_lattice() {
    let c = get_surrounding_coords(3, Real(1.5), Real(2.5));
    assert_eq!(c, [(1, 2), (2, 2), (1, 3), (2, 3)]);
    let c = get_surrounding_coords(3, Real(-7.0), Real(9.5));
    assert_eq!(c, [(0, 4), (0, 4), (0, 4), (0, 4)]);
    let c = get_surrounding_coords(3, Real(4.0), Real(-0.5));
    assert_eq!(c, [(4, 0), (4, 0), (4, 0), (4, 0)]);
}

#[test]
fn lattice_bounds_clamp_both_ends() {
    assert_eq!(lattice_bounds(3, 2, 3), (2, 3));
    assert_eq!(lattice_bounds(3, 2, 2), (2, 2));
    assert_eq!(lattice_bounds(3, -1, 0), (0, 0));
    assert_eq!(lattice_bounds(3, 4, 5), (4, 4));
    assert_eq!(lattice_bounds(3, i64::MAX, i64::MAX), (4, 4));
    assert_eq!(lattice_bounds(3, i64::MIN, i64::MIN), (0, 0));
}

#[test]
fn clamp_to_lattice_keeps_inner_coordinates() {
    assert_eq!(clamp_to_lattice(3, 3), 3);
    assert_eq!(clamp_to_lattice(3, -5), 0);
    assert_eq!(clamp_to_lattice(3, 9), 4);
}

#[test]
fn surrounding_coords_on_lattice_lines_coincide() {
    let c = get_surrounding_coords(3, Real(2.0), Real(3.0));
    assert_eq!(c, [(2, 3), (2, 3), (2, 3), (2, 3)]);
    let c = get_surrounding_coords(3, Real(0.0), Real(1.5));
    assert_eq!(c, [(0, 1), (0, 1), (0, 2), (0, 2)]);
}

#[test]
fn advection_onto_a_lattice_point_reads_it_directly() {
    // cell (3, 3) traces back exactly to the lattice point (2, 3), whose
    // value is read directly; beside a lattice point an infinite value is
    // not interpolated in
    let mut f = fluid(5, 0.0);
    f.set_dt(Real(1.0));
    let src = f.ix(2, 3) as usize;
    let dst = f.ix(3, 3) as usize;
    f.add_velocity(dst, Real(1.0), Real(0.0));
    f.add_density(src, Real(8.0));
    f.simulate();
    f.set_dt(Real(0.0));
    f.simulate();
    assert_eq!(density(&f, 3, 3), 8.0);
    assert_eq!(interpolate(2, Real(8.0), 2, Real(f64::INFINITY), Real(2.0)), Real(8.0));
}
