use fluid_sim::{gauss_seidel, GaussSeidelFunction};

type LinearEquation<T> = fn(variables: &Vec<f64>, args: &T) -> f64;

fn eq1(variables: &Vec<f64>, _arg: &Option<u8>) -> f64 {
    (3.0 + (2.0 * variables[1]) + variables[2] + variables[3]) * (1.0 / 10.0)
}

fn eq2(variables: &Vec<f64>, _arg: &Option<u8>) -> f64 {
    (15.0 + (2.0 * variables[0]) + variables[2] + variables[3]) * (1.0 / 10.0)
}

fn eq3(variables: &Vec<f64>, _arg: &Option<u8>) -> f64 {
    (27.0 + variables[0] + variables[1] + variables[3]) * (1.0 / 10.0)
}

fn eq4(variables: &Vec<f64>, _arg: &Option<u8>) -> f64 {
    ((-1.0 * 9.0) + variables[0] + variables[1] + (2.0 * variables[2])) * (1.0 / 10.0)
}

fn four_equation_system() -> Vec<GaussSeidelFunction<LinearEquation<Option<u8>>, Option<u8>>> {
    let fns: [LinearEquation<Option<u8>>; 4] = [eq1, eq2, eq3, eq4];
    fns.iter().map(|f| GaussSeidelFunction::new(*f, None)).collect()
}

// Ten sweeps of this system come within 1e-7 of the solution [1, 2, 3, 0]
// but do not reach it exactly in f64: the first unknown is
// 0.9999999678353844. Exact equality is reached from sweep 21 on (see the
// next test).
#[test]
fn gauss_seidel_works() {
    let answers = gauss_seidel(four_equation_system(), vec![0.0, 0.0, 0.0, 0.0], 10);
    let expected = [1.0, 2.0, 3.0, 0.0];
    for i in 0..4 {
        assert!((answers[i] - expected[i]).abs() < 1e-7);
    }
    assert_eq!(answers[0], 0.9999999678353844);
}

#[test]
fn gauss_seidel_reaches_the_solution_exactly() {
    let answers = gauss_seidel(four_equation_system(), vec![0.0, 0.0, 0.0, 0.0], 21);
    assert_eq!(answers, vec![1.0, 2.0, 3.0, 0.0]);
}

#[test]
fn gauss_seidel_first_sweep_sees_updated_unknowns() {
    let answers = gauss_seidel(four_equation_system(), vec![0.0, 0.0, 0.0, 0.0], 1);
    // v1 = (15 + 2 * 0.3) / 10 uses the value of v0 from this sweep
    assert_eq!(answers[0], (3.0 + 0.0) * (1.0 / 10.0));
    assert_eq!(answers[1], (15.0 + 2.0 * answers[0]) * (1.0 / 10.0));
}

fn shift(variables: &Vec<i64>, step: &i64) -> i64 {
    variables[0] + variables[1] + *step
}

#[test]
fn gauss_seidel_updates_in_place_in_order() {
    // With in-place sequential updates the second unknown sees the first
    // one's new value within the same sweep.
    let functions = vec![
        GaussSeidelFunction::new(shift as fn(&Vec<i64>, &i64) -> i64, 1),
        GaussSeidelFunction::new(shift as fn(&Vec<i64>, &i64) -> i64, 0),
    ];
    let r = gauss_seidel(functions, vec![0, 0], 1);
    assert_eq!(r, vec![1, 1]);
}

#[test]
fn gauss_seidel_runs_exactly_the_given_sweeps() {
    let functions = vec![
        GaussSeidelFunction::new(shift as fn(&Vec<i64>, &i64) -> i64, 1),
        GaussSeidelFunction::new(shift as fn(&Vec<i64>, &i64) -> i64, 0),
    ];
    // sweep 1: [1, 1]; sweep 2: [3, 4]; sweep 3: [8, 12]
    let r = gauss_seidel(functions, vec![0, 0], 3);
    assert_eq!(r, vec![8, 12]);
}

#[test]
fn gauss_seidel_zero_sweeps_returns_initial_values() {
    let functions = vec![GaussSeidelFunction::new(shift as fn(&Vec<i64>, &i64) -> i64, 5)];
    let r = gauss_seidel(functions, vec![7], 0);
    assert_eq!(r, vec![7]);
}

#[test]
fn gauss_seidel_function_call_passes_its_args() {
    let f = GaussSeidelFunction::new(shift as fn(&Vec<i64>, &i64) -> i64, 4);
    assert_eq!(f.call(&vec![1, 2]), 7);
}
