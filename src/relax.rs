//! A fixed-iteration Gauss-Seidel relaxation engine over an arbitrary
//! small system of coupled equations.
use vstd::arithmetic::div_mod::lemma_fundamental_div_mod_converse;
use vstd::prelude::*;

verus! {

/// One equation of a system: an evaluator that, given the current vector of
/// unknowns and its own arguments, produces this unknown's next value.
pub struct GaussSeidelFunction<F, A> {
    pub funciton: F,
    pub args: A,
}

impl<F, A> GaussSeidelFunction<F, A> {
    pub fn new(funciton: F, args: A) -> (r: GaussSeidelFunction<F, A>)
        ensures
            r.funciton == funciton,
            r.args == args,
    {
        GaussSeidelFunction { funciton, args }
    }

    /// Evaluates the equation on the unknowns `variables`.
    pub fn call<V>(&self, variables: &Vec<V>) -> (r: V) where F: Fn(&Vec<V>, &A) -> V
        requires
            self.funciton.requires((variables, &self.args)),
        ensures
            self.funciton.ensures((variables, &self.args), r),
    {
        (self.funciton)(variables, &self.args)
    }
}

/// Whether equation `f` may give `v` when evaluated on the unknowns `s`.
pub open spec fn evaluates_to<F, A, V>(f: GaussSeidelFunction<F, A>, s: Seq<V>, v: V) -> bool where
    F: Fn(&Vec<V>, &A) -> V,
 {
    exists|u: Vec<V>| u@ == s && #[trigger] f.funciton.ensures((&u, &f.args), v)
}

/// Whether `steps` single-unknown updates, the first of which is update
/// number `t` of the run, lead from the unknowns `s` to `out`. Update number
/// `t` replaces unknown `t % m` by the value its equation gives on the
/// current unknowns, so a sweep of `m` updates visits the unknowns in order
/// and each one sees the values already updated before it.
pub open spec fn relaxes_to<F, A, V>(
    fs: Seq<GaussSeidelFunction<F, A>>,
    s: Seq<V>,
    t: nat,
    steps: nat,
    out: Seq<V>,
) -> bool where F: Fn(&Vec<V>, &A) -> V
    decreases steps,
{
    if steps == 0 {
        out == s
    } else {
        let i = (t % s.len()) as int;
        exists|v: V|
            #[trigger] evaluates_to(fs[i], s, v) && relaxes_to(
                fs,
                s.update(i, v),
                t + 1,
                (steps - 1) as nat,
                out,
            )
    }
}

/// Whether every equation of `fs` may be evaluated on every vector of
/// `fs.len()` unknowns.
pub open spec fn callable_on_all<F, A, V>(fs: Seq<GaussSeidelFunction<F, A>>) -> bool where
    F: Fn(&Vec<V>, &A) -> V,
 {
    forall|i: int, u: Vec<V>|
        0 <= i < fs.len() && u@.len() == fs.len() ==> #[trigger] fs[i].funciton.requires(
            (&u, &fs[i].args),
        )
}

/// Whether each equation of `fs` gives one value on each vector of unknowns.
pub open spec fn deterministic<F, A, V>(fs: Seq<GaussSeidelFunction<F, A>>) -> bool where
    F: Fn(&Vec<V>, &A) -> V,
 {
    forall|i: int, u1: Vec<V>, u2: Vec<V>, v1: V, v2: V|
        0 <= i < fs.len() && u1@ == u2@ && #[trigger] fs[i].funciton.ensures((&u1, &fs[i].args), v1)
            && #[trigger] fs[i].funciton.ensures((&u2, &fs[i].args), v2) ==> v1 == v2
}

/// Relaxation is deterministic: where each equation gives one value on each
/// vector of unknowns, the same equations, start and number of updates lead
/// to one result.
pub proof fn lemma_relaxation_deterministic<F, A, V>(
    fs: Seq<GaussSeidelFunction<F, A>>,
    s: Seq<V>,
    t: nat,
    steps: nat,
    out1: Seq<V>,
    out2: Seq<V>,
) where F: Fn(&Vec<V>, &A) -> V
    requires
        s.len() == fs.len(),
        s.len() > 0 || steps == 0,
        deterministic::<F, A, V>(fs),
        relaxes_to(fs, s, t, steps, out1),
        relaxes_to(fs, s, t, steps, out2),
    ensures
        out1 == out2,
    decreases steps,
{
    if steps > 0 {
        let i = (t % s.len()) as int;
        assert(0 <= i < s.len());
        let v1 = choose|v: V|
            #[trigger] evaluates_to(fs[i], s, v) && relaxes_to(fs, s.update(i, v), t + 1, (steps - 1) as nat, out1);
        let v2 = choose|v: V|
            #[trigger] evaluates_to(fs[i], s, v) && relaxes_to(fs, s.update(i, v), t + 1, (steps - 1) as nat, out2);
        let u1 = choose|u: Vec<V>| u@ == s && #[trigger] fs[i].funciton.ensures((&u, &fs[i].args), v1);
        let u2 = choose|u: Vec<V>| u@ == s && #[trigger] fs[i].funciton.ensures((&u, &fs[i].args), v2);
        assert(v1 == v2);
        lemma_relaxation_deterministic(fs, s.update(i, v1), t + 1, (steps - 1) as nat, out1, out2);
    }
}

/// Runs `iter` Gauss-Seidel sweeps from `initial_values`: in each sweep every
/// unknown, in order, is replaced in place by the value of its equation on
/// the current unknowns. There is no convergence test.
pub fn gauss_seidel<F, A, V>(
    functions: Vec<GaussSeidelFunction<F, A>>,
    initial_values: Vec<V>,
    iter: u16,
) -> (r: Vec<V>) where F: Fn(&Vec<V>, &A) -> V
    requires
        functions@.len() == initial_values@.len(),
        callable_on_all::<F, A, V>(functions@),
    ensures
        r@.len() == initial_values@.len(),
        relaxes_to(functions@, initial_values@, 0, iter as nat * initial_values@.len(), r@),
{
    let m = initial_values.len();
    let ghost fs = functions@;
    let ghost total: nat = iter as nat * m as nat;
    let mut values = initial_values;
    let mut iteration: u16 = 0;
    while iteration < iter
        invariant
            iteration <= iter,
            fs == functions@,
            m == fs.len(),
            values@.len() == m,
            callable_on_all::<F, A, V>(fs),
            total == iter as nat * m as nat,
            forall|out: Seq<V>|
                relaxes_to(fs, values@, iteration as nat * m as nat, (total - iteration as nat * m as nat) as nat, out)
                    ==> #[trigger] relaxes_to(fs, initial_values@, 0, total, out),
        decreases iter - iteration,
    {
        let mut index: usize = 0;
        assert(iteration as nat * m as nat + m <= total) by (nonlinear_arith)
            requires
                iteration < iter,
                total == iter as nat * m as nat,
        ;
        while index < m
            invariant
                iteration < iter,
                index <= m,
                fs == functions@,
                m == fs.len(),
                values@.len() == m,
                callable_on_all::<F, A, V>(fs),
                total == iter as nat * m as nat,
                iteration as nat * m as nat + m <= total,
                forall|out: Seq<V>|
                    relaxes_to(
                        fs,
                        values@,
                        iteration as nat * m as nat + index as nat,
                        (total - (iteration as nat * m as nat + index as nat)) as nat,
                        out,
                    ) ==> #[trigger] relaxes_to(fs, initial_values@, 0, total, out),
            decreases m - index,
        {
            let ghost t: nat = iteration as nat * m as nat + index as nat;
            let ghost before = values@;
            assert(fs[index as int].funciton.requires((&values, &fs[index as int].args)));
            let v = functions[index].call(&values);
            proof {
                lemma_fundamental_div_mod_converse(t as int, m as int, iteration as int, index as int);
                assert(evaluates_to(fs[index as int], before, v));
            }
            values.set(index, v);
            assert forall|out: Seq<V>|
                relaxes_to(fs, values@, t + 1, (total - (t + 1)) as nat, out) implies #[trigger] relaxes_to(
                    fs,
                    initial_values@,
                    0,
                    total,
                    out,
                ) by {
                assert(relaxes_to(fs, before, t, (total - t) as nat, out));
            }
            index += 1;
        }
        assert((iteration as nat + 1) * m as nat == iteration as nat * m as nat + m) by (nonlinear_arith);
        iteration += 1;
    }
    assert(relaxes_to(fs, values@, total, 0, values@));
    values
}

} // verus!
