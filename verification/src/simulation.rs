//! The system of network equations and its assembly from component stamps.

use crate::components;
use crate::components::{conductance_defined, Network};
use crate::error::SimulationError;
use crate::math::{constant_table, DMatrix, Matrix2x1, Matrix2x2};
use crate::models::{admittance_defined, ComponentType, NetworkState, GROUND};
use crate::scalar::{computes1, computes2, total2, Complex64, Real64, Scalar};
use crate::stamp::{spec_branch_stamp, spec_injection_stamp};
use vstd::prelude::*;

verus! {

/// One addition into the system: `value` is added to the entry of row `row`
/// and column `col`.
pub struct Contribution<T> {
    pub row: usize,
    pub col: usize,
    pub value: T,
}

/// The table after one contribution, with `f` as the sum. A contribution
/// outside the table changes nothing.
pub open spec fn accumulated<T>(table: Seq<Seq<T>>, c: Contribution<T>, f: spec_fn(T, T) -> T) -> Seq<
    Seq<T>,
> {
    if c.row < table.len() && c.col < table[c.row as int].len() {
        table.update(
            c.row as int,
            table[c.row as int].update(c.col as int, f(table[c.row as int][c.col as int], c.value)),
        )
    } else {
        table
    }
}

/// `accumulated` with the sum fixed, as the step of a fold.
pub open spec fn accumulator<T>(f: spec_fn(T, T) -> T) -> spec_fn(
    Seq<Seq<T>>,
    Contribution<T>,
) -> Seq<Seq<T>> {
    |table: Seq<Seq<T>>, c: Contribution<T>| accumulated(table, c, f)
}

/// The table after the contributions `cs`, made one after the other.
pub open spec fn superposed<T>(
    table: Seq<Seq<T>>,
    cs: Seq<Contribution<T>>,
    f: spec_fn(T, T) -> T,
) -> Seq<Seq<T>> {
    cs.fold_left(table, accumulator(f))
}

/// One contribution, made with the caller's sum: `after` is `before` with the
/// entry of the contribution replaced by a sum that `plus` returned for that
/// entry and the value. A contribution outside the table changes nothing.
pub open spec fn accumulates<T, A: Fn(T, T) -> T>(
    plus: A,
    before: Seq<Seq<T>>,
    c: Contribution<T>,
    after: Seq<Seq<T>>,
) -> bool {
    if c.row < before.len() && c.col < before[c.row as int].len() {
        &&& plus.ensures(
            (before[c.row as int][c.col as int], c.value),
            after[c.row as int][c.col as int],
        )
        &&& after == before.update(
            c.row as int,
            before[c.row as int].update(c.col as int, after[c.row as int][c.col as int]),
        )
    } else {
        after == before
    }
}

/// The contributions `cs`, made one after the other with the caller's sum,
/// lead from `before` to `after`.
pub open spec fn superposes<T, A: Fn(T, T) -> T>(
    plus: A,
    before: Seq<Seq<T>>,
    cs: Seq<Contribution<T>>,
    after: Seq<Seq<T>>,
) -> bool
    decreases cs.len(),
{
    if cs.len() == 0 {
        after == before
    } else {
        exists|mid: Seq<Seq<T>>|
            superposes(plus, before, cs.drop_last(), mid) && #[trigger] accumulates(
                plus,
                mid,
                cs.last(),
                after,
            )
    }
}

/// A terminal is the ground or a row of a system of `size` unknowns.
pub open spec fn terminal_in_range(node: usize, size: usize) -> bool {
    node == GROUND || node < size
}

/// What a branch between the terminals `node_1` and `node_2` adds to the
/// matrix: its diagonal entries at the terminals that are not the ground,
/// and its off-diagonal entries where neither is.
pub open spec fn branch_contributions<T>(stamp: Matrix2x2<T>, node_1: usize, node_2: usize) -> Seq<
    Contribution<T>,
> {
    let none = Seq::<Contribution<T>>::empty();
    let first = if node_1 != GROUND {
        none.push(Contribution { row: node_1, col: node_1, value: stamp.m11 })
    } else {
        none
    };
    let second = if node_2 != GROUND {
        first.push(Contribution { row: node_2, col: node_2, value: stamp.m22 })
    } else {
        first
    };
    if node_1 != GROUND && node_2 != GROUND {
        second.push(Contribution { row: node_1, col: node_2, value: stamp.m12 }).push(
            Contribution { row: node_2, col: node_1, value: stamp.m21 },
        )
    } else {
        second
    }
}

/// What an injection between the terminals `node_1` and `node_2` adds to the
/// right-hand side. A stamp entry is the current that leaves the terminal,
/// the right-hand side holds the current that enters the node: each terminal
/// that is not the ground receives its entry negated.
pub open spec fn injection_contributions<T: Scalar>(
    stamp: Matrix2x1<T>,
    node_1: usize,
    node_2: usize,
) -> Seq<Contribution<T>> {
    let none = Seq::<Contribution<T>>::empty();
    let first = if node_1 != GROUND {
        none.push(Contribution { row: node_1, col: 0, value: stamp.x.spec_neg() })
    } else {
        none
    };
    if node_2 != GROUND {
        first.push(Contribution { row: node_2, col: 0, value: stamp.y.spec_neg() })
    } else {
        first
    }
}

/// One more contribution is one more step.
pub proof fn lemma_superposed_push<T>(
    table: Seq<Seq<T>>,
    cs: Seq<Contribution<T>>,
    c: Contribution<T>,
    f: spec_fn(T, T) -> T,
)
    ensures
        superposed(table, cs.push(c), f) == accumulated(superposed(table, cs, f), c, f),
{
    assert(cs.push(c).drop_last() == cs);
    assert(cs.push(c).last() == c);
}

/// No contribution, no change.
pub proof fn lemma_superposed_empty<T>(table: Seq<Seq<T>>, f: spec_fn(T, T) -> T)
    ensures
        superposed(table, Seq::<Contribution<T>>::empty(), f) == table,
{
}

/// One more contribution made is one more step from `before`.
pub proof fn lemma_superposes_push<T, A: Fn(T, T) -> T>(
    plus: A,
    before: Seq<Seq<T>>,
    cs: Seq<Contribution<T>>,
    mid: Seq<Seq<T>>,
    c: Contribution<T>,
    after: Seq<Seq<T>>,
)
    requires
        superposes(plus, before, cs, mid),
        accumulates(plus, mid, c, after),
    ensures
        superposes(plus, before, cs.push(c), after),
{
    assert(cs.push(c).drop_last() == cs);
    assert(cs.push(c).last() == c);
}

/// Where the caller's sum computes the function `f`, the contributions lead
/// to the table that `superposed` gives for `f`, and to no other.
pub proof fn lemma_superposes_function<T, A: Fn(T, T) -> T>(
    plus: A,
    before: Seq<Seq<T>>,
    cs: Seq<Contribution<T>>,
    after: Seq<Seq<T>>,
    f: spec_fn(T, T) -> T,
)
    requires
        superposes(plus, before, cs, after),
        computes2(plus, f),
    ensures
        after == superposed(before, cs, f),
    decreases cs.len(),
{
    if cs.len() > 0 {
        let mid = choose|mid: Seq<Seq<T>>|
            superposes(plus, before, cs.drop_last(), mid) && #[trigger] accumulates(
                plus,
                mid,
                cs.last(),
                after,
            );
        lemma_superposes_function(plus, before, cs.drop_last(), mid, f);
    }
}

/// The system `net_matrix · x = rhs_vector` of a network with `net_size`
/// nodes besides the ground.
#[derive(Debug)]
pub struct Simulation<T> {
    pub net_matrix: DMatrix<T>,
    pub rhs_vector: DMatrix<T>,
    pub net_size: usize,
}

impl<T: Scalar> Simulation<T> {
    /// The matrix is square, the right-hand side is one column, and both have
    /// `net_size` rows.
    pub open spec fn wf(&self) -> bool {
        &&& self.net_matrix.wf()
        &&& self.net_matrix.nrows == self.net_size
        &&& self.net_matrix.ncols == self.net_size
        &&& self.rhs_vector.wf()
        &&& self.rhs_vector.nrows == self.net_size
        &&& self.rhs_vector.ncols == 1
    }

    /// The system of `net_size` unknowns with every coefficient zero.
    pub fn with_size(net_size: usize) -> (sim: Self)
        ensures
            sim.wf(),
            sim.net_size == net_size,
            sim.net_matrix@ == constant_table(net_size as int, net_size as int, T::spec_zero()),
            sim.rhs_vector@ == constant_table(net_size as int, 1, T::spec_zero()),
    {
        Self {
            net_matrix: DMatrix::zeros(net_size, net_size),
            rhs_vector: DMatrix::zeros(net_size, 1),
            net_size,
        }
    }

    /// What the system answers to an outcome of the solver: the solution,
    /// if the solver gave a column of `net_size` entries; a failure, if it
    /// gave none or one of another shape.
    pub open spec fn spec_solution_from(&self, outcome: Option<DMatrix<T>>) -> Result<
        DMatrix<T>,
        SimulationError,
    > {
        match outcome {
            Some(x) => if x.wf() && x.nrows == self.net_size && x.ncols == 1 {
                Ok(x)
            } else {
                Err(SimulationError::SingularSystem)
            },
            None => Err(SimulationError::SingularSystem),
        }
    }

    /// Answers an outcome of the solver.
    pub fn solution_from(&self, outcome: Option<DMatrix<T>>) -> (solution: Result<
        DMatrix<T>,
        SimulationError,
    >)
        ensures
            solution == self.spec_solution_from(outcome),
    {
        match outcome {
            Some(x) => if x.has_dimensions(self.net_size, 1) {
                Ok(x)
            } else {
                Err(SimulationError::SingularSystem)
            },
            None => Err(SimulationError::SingularSystem),
        }
    }

    /// Solves `net_matrix · x = rhs_vector`. A system without unknowns has
    /// the empty solution, and the solver is not asked. Otherwise the solver
    /// is asked once, with the matrix and the right-hand side, and its
    /// outcome is answered as `spec_solution_from` says.
    pub fn solve<S: Fn(&DMatrix<T>, &DMatrix<T>) -> Option<DMatrix<T>>>(&self, solver: &S) -> (solution:
        Result<DMatrix<T>, SimulationError>)
        requires
            self.wf(),
            self.net_size > 0 ==> solver.requires((&self.net_matrix, &self.rhs_vector)),
        ensures
            self.net_size == 0 ==> (solution matches Ok(x) && x.wf() && x.nrows == 0 && x.ncols
                == 1 && x@.len() == 0),
            self.net_size > 0 ==> exists|outcome: Option<DMatrix<T>>| #[trigger]
                solver.ensures((&self.net_matrix, &self.rhs_vector), outcome) && solution
                    == self.spec_solution_from(outcome),
    {
        if self.net_size == 0 {
            Ok(DMatrix::zeros(0, 1))
        } else {
            let outcome = solver(&self.net_matrix, &self.rhs_vector);
            self.solution_from(outcome)
        }
    }

    /// Adds the stamp of a branch between `node_1` and `node_2` to the
    /// matrix, entry by entry with the caller's sum. A terminal that is
    /// neither the ground nor a row of the system is refused before anything
    /// is changed.
    pub fn stamp_branch<A: Fn(T, T) -> T>(
        &mut self,
        stamp: &Matrix2x2<T>,
        node_1: usize,
        node_2: usize,
        plus: &A,
    ) -> (done: Result<(), SimulationError>)
        requires
            old(self).wf(),
            total2(*plus),
        ensures
            final(self).wf(),
            final(self).net_size == old(self).net_size,
            final(self).rhs_vector == old(self).rhs_vector,
            !(terminal_in_range(node_1, old(self).net_size) && terminal_in_range(
                node_2,
                old(self).net_size,
            )) ==> done == Err::<(), SimulationError>(SimulationError::OutOfRangeNodeReference)
                && final(self).net_matrix == old(self).net_matrix,
            terminal_in_range(node_1, old(self).net_size) && terminal_in_range(
                node_2,
                old(self).net_size,
            ) ==> done is Ok && superposes(
                *plus,
                old(self).net_matrix@,
                branch_contributions(*stamp, node_1, node_2),
                final(self).net_matrix@,
            ),
    {
        if (node_1 != GROUND && node_1 >= self.net_size) || (node_2 != GROUND && node_2
            >= self.net_size) {
            return Err(SimulationError::OutOfRangeNodeReference);
        }
        let ghost start = self.net_matrix@;
        let ghost mut made = Seq::<Contribution<T>>::empty();
        if node_1 != GROUND {
            contribute(&mut self.net_matrix, node_1, node_1, stamp.m11, plus, Ghost(start), Ghost(made));
            proof {
                made = made.push(Contribution { row: node_1, col: node_1, value: stamp.m11 });
            }
        }
        if node_2 != GROUND {
            contribute(&mut self.net_matrix, node_2, node_2, stamp.m22, plus, Ghost(start), Ghost(made));
            proof {
                made = made.push(Contribution { row: node_2, col: node_2, value: stamp.m22 });
            }
        }
        if node_1 != GROUND && node_2 != GROUND {
            contribute(&mut self.net_matrix, node_1, node_2, stamp.m12, plus, Ghost(start), Ghost(made));
            proof {
                made = made.push(Contribution { row: node_1, col: node_2, value: stamp.m12 });
            }
            contribute(&mut self.net_matrix, node_2, node_1, stamp.m21, plus, Ghost(start), Ghost(made));
            proof {
                made = made.push(Contribution { row: node_2, col: node_1, value: stamp.m21 });
            }
        }
        assert(made == branch_contributions(*stamp, node_1, node_2));
        Ok(())
    }

    /// Adds the stamp of an injection between `node_1` and `node_2` to the
    /// right-hand side, with the caller's sum: each terminal that is not the
    /// ground receives its entry of the stamp, negated. A terminal that is
    /// neither the ground nor a row of the system is refused before anything
    /// is changed.
    pub fn stamp_node_injection<A: Fn(T, T) -> T>(
        &mut self,
        stamp: &Matrix2x1<T>,
        node_1: usize,
        node_2: usize,
        plus: &A,
    ) -> (done: Result<(), SimulationError>)
        requires
            old(self).wf(),
            total2(*plus),
        ensures
            final(self).wf(),
            final(self).net_size == old(self).net_size,
            final(self).net_matrix == old(self).net_matrix,
            !(terminal_in_range(node_1, old(self).net_size) && terminal_in_range(
                node_2,
                old(self).net_size,
            )) ==> done == Err::<(), SimulationError>(SimulationError::OutOfRangeNodeReference)
                && final(self).rhs_vector == old(self).rhs_vector,
            terminal_in_range(node_1, old(self).net_size) && terminal_in_range(
                node_2,
                old(self).net_size,
            ) ==> done is Ok && superposes(
                *plus,
                old(self).rhs_vector@,
                injection_contributions(*stamp, node_1, node_2),
                final(self).rhs_vector@,
            ),
    {
        if (node_1 != GROUND && node_1 >= self.net_size) || (node_2 != GROUND && node_2
            >= self.net_size) {
            return Err(SimulationError::OutOfRangeNodeReference);
        }
        let ghost start = self.rhs_vector@;
        let ghost mut made = Seq::<Contribution<T>>::empty();
        if node_1 != GROUND {
            let value = stamp.x.neg();
            contribute(&mut self.rhs_vector, node_1, 0, value, plus, Ghost(start), Ghost(made));
            proof {
                made = made.push(Contribution { row: node_1, col: 0, value });
            }
        }
        if node_2 != GROUND {
            let value = stamp.y.neg();
            contribute(&mut self.rhs_vector, node_2, 0, value, plus, Ghost(start), Ghost(made));
            proof {
                made = made.push(Contribution { row: node_2, col: 0, value });
            }
        }
        assert(made == injection_contributions(*stamp, node_1, node_2));
        Ok(())
    }
}

/// Makes one contribution to a matrix that the contributions `made` have led
/// to from the table `start`.
fn contribute<T: Copy, A: Fn(T, T) -> T>(
    matrix: &mut DMatrix<T>,
    row: usize,
    col: usize,
    value: T,
    plus: &A,
    Ghost(start): Ghost<Seq<Seq<T>>>,
    Ghost(made): Ghost<Seq<Contribution<T>>>,
)
    requires
        old(matrix).wf(),
        row < old(matrix).nrows,
        col < old(matrix).ncols,
        total2(*plus),
        superposes(*plus, start, made, old(matrix)@),
    ensures
        final(matrix).wf(),
        final(matrix).nrows == old(matrix).nrows,
        final(matrix).ncols == old(matrix).ncols,
        superposes(*plus, start, made.push(Contribution { row, col, value }), final(matrix)@),
{
    proof {
        matrix.lemma_view_shape();
    }
    matrix.accumulate(row, col, value, plus);
    proof {
        lemma_superposes_push(
            *plus,
            start,
            made,
            old(matrix)@,
            Contribution { row, col, value },
            matrix@,
        );
    }
}

/// The step of an assembly: a component adds its contributions, which
/// `parts` lists, to the table.
pub open spec fn component_step<T, C>(
    parts: spec_fn(C) -> Seq<Contribution<T>>,
    f: spec_fn(T, T) -> T,
) -> spec_fn(Seq<Seq<T>>, C) -> Seq<Seq<T>> {
    |table: Seq<Seq<T>>, c: C| superposed(table, parts(c), f)
}

/// The table after the components `comps` have added their contributions,
/// one component after the other, with `f` as the sum.
pub open spec fn assembled<T, C>(
    table: Seq<Seq<T>>,
    comps: Seq<C>,
    parts: spec_fn(C) -> Seq<Contribution<T>>,
    f: spec_fn(T, T) -> T,
) -> Seq<Seq<T>> {
    comps.fold_left(table, component_step(parts, f))
}

/// The components `comps`, adding their contributions one component after
/// the other with the caller's sum, lead from `before` to `after`.
pub open spec fn assembles<T, C, A: Fn(T, T) -> T>(
    plus: A,
    before: Seq<Seq<T>>,
    comps: Seq<C>,
    parts: spec_fn(C) -> Seq<Contribution<T>>,
    after: Seq<Seq<T>>,
) -> bool
    decreases comps.len(),
{
    if comps.len() == 0 {
        after == before
    } else {
        exists|mid: Seq<Seq<T>>|
            assembles(plus, before, comps.drop_last(), parts, mid) && #[trigger] superposes(
                plus,
                mid,
                parts(comps.last()),
                after,
            )
    }
}

/// One more component is one more step.
pub proof fn lemma_assembled_push<T, C>(
    table: Seq<Seq<T>>,
    comps: Seq<C>,
    c: C,
    parts: spec_fn(C) -> Seq<Contribution<T>>,
    f: spec_fn(T, T) -> T,
)
    ensures
        assembled(table, comps.push(c), parts, f) == superposed(
            assembled(table, comps, parts, f),
            parts(c),
            f,
        ),
{
    assert(comps.push(c).drop_last() == comps);
    assert(comps.push(c).last() == c);
}

/// One more component stamped is one more step from `before`.
pub proof fn lemma_assembles_push<T, C, A: Fn(T, T) -> T>(
    plus: A,
    before: Seq<Seq<T>>,
    comps: Seq<C>,
    mid: Seq<Seq<T>>,
    c: C,
    parts: spec_fn(C) -> Seq<Contribution<T>>,
    after: Seq<Seq<T>>,
)
    requires
        assembles(plus, before, comps, parts, mid),
        superposes(plus, mid, parts(c), after),
    ensures
        assembles(plus, before, comps.push(c), parts, after),
{
    assert(comps.push(c).drop_last() == comps);
    assert(comps.push(c).last() == c);
}

/// Where the caller's sum computes the function `f`, the components lead to
/// the table that `assembled` gives for `f`, and to no other.
pub proof fn lemma_assembles_function<T, C, A: Fn(T, T) -> T>(
    plus: A,
    before: Seq<Seq<T>>,
    comps: Seq<C>,
    parts: spec_fn(C) -> Seq<Contribution<T>>,
    after: Seq<Seq<T>>,
    f: spec_fn(T, T) -> T,
)
    requires
        assembles(plus, before, comps, parts, after),
        computes2(plus, f),
    ensures
        after == assembled(before, comps, parts, f),
    decreases comps.len(),
{
    if comps.len() > 0 {
        let mid = choose|mid: Seq<Seq<T>>|
            assembles(plus, before, comps.drop_last(), parts, mid) && #[trigger] superposes(
                plus,
                mid,
                parts(comps.last()),
                after,
            );
        lemma_assembles_function(plus, before, comps.drop_last(), parts, mid, f);
        lemma_superposes_function(plus, mid, parts(comps.last()), after, f);
    }
}

/// Components that add the same contributions, one for one, assemble to the
/// same table.
pub proof fn lemma_assembled_same_parts<T, C, D>(
    table: Seq<Seq<T>>,
    a: Seq<C>,
    b: Seq<D>,
    parts_a: spec_fn(C) -> Seq<Contribution<T>>,
    parts_b: spec_fn(D) -> Seq<Contribution<T>>,
    f: spec_fn(T, T) -> T,
)
    requires
        a.len() == b.len(),
        forall|j: int| 0 <= j < a.len() ==> parts_a(#[trigger] a[j]) == parts_b(b[j]),
    ensures
        assembled(table, a, parts_a, f) == assembled(table, b, parts_b, f),
    decreases a.len(),
{
    if a.len() > 0 {
        assert forall|j: int| 0 <= j < a.drop_last().len() implies parts_a(
            #[trigger] a.drop_last()[j],
        ) == parts_b(b.drop_last()[j]) by {
            assert(a.drop_last()[j] == a[j]);
        }
        lemma_assembled_same_parts(table, a.drop_last(), b.drop_last(), parts_a, parts_b, f);
        assert(parts_a(a[a.len() - 1]) == parts_b(b[a.len() - 1]));
    }
}

/// What a component adds to the matrix: a line its branch stamp, with the
/// admittance that `admittance` gives for its impedance; a source nothing.
pub open spec fn matrix_contributions(admittance: spec_fn(Real64, Real64) -> Complex64) -> spec_fn(
    ComponentType,
) -> Seq<Contribution<Complex64>> {
    |c: ComponentType|
        match c {
            ComponentType::Line(line) => branch_contributions(
                spec_branch_stamp(admittance(line.params.resistance, line.params.reactance)),
                line.params.node_1,
                line.params.node_2,
            ),
            _ => Seq::empty(),
        }
}

/// What a component adds to the right-hand side: a source its injection
/// stamp, a line nothing.
pub open spec fn rhs_contributions() -> spec_fn(ComponentType) -> Seq<Contribution<Complex64>> {
    |c: ComponentType|
        match c {
            ComponentType::Line(line) => Seq::empty(),
            ComponentType::CurrentSource(source) => injection_contributions(
                spec_injection_stamp(source.params.set_point),
                source.params.node_1,
                source.params.node_2,
            ),
            ComponentType::PQSource(source) => injection_contributions(
                spec_injection_stamp(source.params.set_point),
                source.params.node,
                GROUND,
            ),
        }
}

/// What a component adds to the matrix with the stamp that it holds.
pub open spec fn held_matrix_contributions() -> spec_fn(ComponentType) -> Seq<
    Contribution<Complex64>,
> {
    |c: ComponentType|
        match c {
            ComponentType::Line(line) => branch_contributions(
                line.stamp,
                line.params.node_1,
                line.params.node_2,
            ),
            _ => Seq::empty(),
        }
}

/// What a component adds to the right-hand side with the stamp that it
/// holds.
pub open spec fn held_rhs_contributions() -> spec_fn(ComponentType) -> Seq<
    Contribution<Complex64>,
> {
    |c: ComponentType|
        match c {
            ComponentType::Line(line) => Seq::empty(),
            ComponentType::CurrentSource(source) => injection_contributions(
                source.stamp,
                source.params.node_1,
                source.params.node_2,
            ),
            ComponentType::PQSource(source) => injection_contributions(
                source.stamp,
                source.params.node,
                GROUND,
            ),
        }
}

/// Both terminals of the component are the ground or rows of the system.
pub open spec fn component_in_range(c: ComponentType, size: usize) -> bool {
    terminal_in_range(c.spec_terminals().0, size) && terminal_in_range(c.spec_terminals().1, size)
}

/// Every component has both terminals in range.
pub open spec fn all_in_range(comps: Seq<ComponentType>, size: usize) -> bool {
    forall|k: int| 0 <= k < comps.len() ==> component_in_range(#[trigger] comps[k], size)
}

/// Some component has no stamp.
pub open spec fn any_degenerate(comps: Seq<ComponentType>) -> bool {
    exists|k: int| 0 <= k < comps.len() && (#[trigger] comps[k]).spec_is_degenerate()
}

/// Every component of `after` is the component of `before` at its place,
/// with its stamp computed.
pub open spec fn all_computed<R: Fn(Real64, Real64) -> Complex64>(
    before: Seq<ComponentType>,
    after: Seq<ComponentType>,
    recip: R,
) -> bool {
    &&& after.len() == before.len()
    &&& forall|j: int| 0 <= j < before.len() ==> (#[trigger] after[j]).computed_from(before[j], recip)
}

impl Simulation<Complex64> {
    /// The system of a network, with every coefficient zero: one unknown for
    /// each of its nodes.
    pub fn new(net: &mut NetworkState) -> (sim: Self)
        ensures
            *final(net) == *old(net),
            sim.wf(),
            sim.net_size == old(net).nodes@.len(),
            sim.net_matrix@ == constant_table(
                sim.net_size as int,
                sim.net_size as int,
                Complex64::spec_zero(),
            ),
            sim.rhs_vector@ == constant_table(sim.net_size as int, 1, Complex64::spec_zero()),
    {
        Self::with_size(net.nodes.len())
    }

    /// One assembly pass: computes the stamp of every component and adds it
    /// to the system, in the order of the components.
    ///
    /// Nothing is changed unless every component can be stamped. If some
    /// terminal is neither the ground nor a row of the system, the pass fails
    /// with `OutOfRangeNodeReference`; otherwise, if some line has zero
    /// impedance, with `DegenerateComponent`.
    pub fn stamp<R: Fn(Real64, Real64) -> Complex64, A: Fn(Complex64, Complex64) -> Complex64>(
        &mut self,
        net: &mut NetworkState,
        recip: &R,
        plus: &A,
    ) -> (done: Result<(), SimulationError>)
        requires
            old(self).wf(),
            admittance_defined(*recip),
            total2(*plus),
        ensures
            final(self).wf(),
            final(self).net_size == old(self).net_size,
            final(net).nodes == old(net).nodes,
            !all_in_range(old(net).comps@, old(self).net_size) ==> done == Err::<
                (),
                SimulationError,
            >(SimulationError::OutOfRangeNodeReference),
            all_in_range(old(net).comps@, old(self).net_size) && any_degenerate(old(net).comps@)
                ==> done == Err::<(), SimulationError>(SimulationError::DegenerateComponent),
            all_in_range(old(net).comps@, old(self).net_size) && !any_degenerate(old(net).comps@)
                ==> done is Ok,
            done is Err ==> *final(self) == *old(self) && *final(net) == *old(net),
            done is Ok ==> all_computed(old(net).comps@, final(net).comps@, *recip),
            done is Ok ==> assembles(
                *plus,
                old(self).net_matrix@,
                final(net).comps@,
                held_matrix_contributions(),
                final(self).net_matrix@,
            ),
            done is Ok ==> assembles(
                *plus,
                old(self).rhs_vector@,
                final(net).comps@,
                held_rhs_contributions(),
                final(self).rhs_vector@,
            ),
    {
        let n = net.comps.len();
        let mut k: usize = 0;
        while k < n
            invariant
                k <= n,
                n == net.comps@.len(),
                *self == *old(self),
                *net == *old(net),
                self.wf(),
                forall|j: int|
                    0 <= j < k ==> component_in_range(#[trigger] net.comps@[j], self.net_size),
            decreases n - k,
        {
            let (node_1, node_2) = net.comps[k].terminals();
            if (node_1 != GROUND && node_1 >= self.net_size) || (node_2 != GROUND && node_2
                >= self.net_size) {
                return Err(SimulationError::OutOfRangeNodeReference);
            }
            k += 1;
        }
        k = 0;
        while k < n
            invariant
                k <= n,
                n == net.comps@.len(),
                *self == *old(self),
                *net == *old(net),
                self.wf(),
                all_in_range(net.comps@, self.net_size),
                forall|j: int| 0 <= j < k ==> !(#[trigger] net.comps@[j]).spec_is_degenerate(),
            decreases n - k,
        {
            if net.comps[k].is_degenerate() {
                return Err(SimulationError::DegenerateComponent);
            }
            k += 1;
        }
        let ghost before = net.comps@;
        k = 0;
        while k < n
            invariant
                k <= n,
                n == before.len(),
                n == net.comps@.len(),
                before == old(net).comps@,
                net.nodes == old(net).nodes,
                admittance_defined(*recip),
                total2(*plus),
                self.wf(),
                self.net_size == old(self).net_size,
                all_in_range(before, self.net_size),
                !any_degenerate(before),
                forall|j: int| k <= j < n ==> #[trigger] net.comps@[j] == before[j],
                forall|j: int|
                    0 <= j < k ==> (#[trigger] net.comps@[j]).computed_from(before[j], *recip),
                assembles(
                    *plus,
                    old(self).net_matrix@,
                    net.comps@.take(k as int),
                    held_matrix_contributions(),
                    self.net_matrix@,
                ),
                assembles(
                    *plus,
                    old(self).rhs_vector@,
                    net.comps@.take(k as int),
                    held_rhs_contributions(),
                    self.rhs_vector@,
                ),
            decreases n - k,
        {
            let ghost matrix_before = self.net_matrix@;
            let ghost rhs_before = self.rhs_vector@;
            let ghost comps_before = net.comps@;
            proof {
                assert(component_in_range(before[k as int], self.net_size));
                assert(!before[k as int].spec_is_degenerate());
            }
            let computed = net.comps[k].calculate_stamp(recip);
            let added = match &net.comps[k] {
                ComponentType::Line(line) => self.stamp_branch(
                    &line.stamp,
                    line.params.node_1,
                    line.params.node_2,
                    plus,
                ),
                ComponentType::CurrentSource(source) => self.stamp_node_injection(
                    &source.stamp,
                    source.params.node_1,
                    source.params.node_2,
                    plus,
                ),
                ComponentType::PQSource(source) => self.stamp_node_injection(
                    &source.stamp,
                    source.params.node,
                    GROUND,
                    plus,
                ),
            };
            assert(computed is Ok && added is Ok);
            proof {
                let this = net.comps@[k as int];
                assert(net.comps@.take(k as int) == comps_before.take(k as int));
                assert(net.comps@.take(k + 1) == comps_before.take(k as int).push(this));
                assert forall|j: int| 0 <= j < k + 1 implies (#[trigger] net.comps@[j]).computed_from(
                    before[j],
                    *recip,
                ) by {
                    if j < k {
                        assert(net.comps@[j] == comps_before[j]);
                    }
                }
                lemma_assembles_push(
                    *plus,
                    old(self).net_matrix@,
                    comps_before.take(k as int),
                    matrix_before,
                    this,
                    held_matrix_contributions(),
                    self.net_matrix@,
                );
                lemma_assembles_push(
                    *plus,
                    old(self).rhs_vector@,
                    comps_before.take(k as int),
                    rhs_before,
                    this,
                    held_rhs_contributions(),
                    self.rhs_vector@,
                );
            }
            k += 1;
        }
        assert(net.comps@.take(n as int) == net.comps@);
        Ok(())
    }
}

/// What an assembly pass has done, where the caller's reciprocal computes
/// the function `y` and the caller's sum the function `f`: every component
/// holds the stamp that `y` gives for its parameters, and the matrix and the
/// right-hand side are what the declared components assemble to with `y` and
/// `f`.
pub proof fn lemma_pass_assembles_declarations<
    R: Fn(Real64, Real64) -> Complex64,
    A: Fn(Complex64, Complex64) -> Complex64,
>(
    recip: R,
    plus: A,
    declared: Seq<ComponentType>,
    stamped: Seq<ComponentType>,
    matrix_before: Seq<Seq<Complex64>>,
    matrix_after: Seq<Seq<Complex64>>,
    rhs_before: Seq<Seq<Complex64>>,
    rhs_after: Seq<Seq<Complex64>>,
    y: spec_fn(Real64, Real64) -> Complex64,
    f: spec_fn(Complex64, Complex64) -> Complex64,
)
    requires
        all_computed(declared, stamped, recip),
        assembles(plus, matrix_before, stamped, held_matrix_contributions(), matrix_after),
        assembles(plus, rhs_before, stamped, held_rhs_contributions(), rhs_after),
        computes2(recip, y),
        computes2(plus, f),
    ensures
        stamped == declared.map_values(|c: ComponentType| c.stamped(y)),
        matrix_after == assembled(matrix_before, declared, matrix_contributions(y), f),
        rhs_after == assembled(rhs_before, declared, rhs_contributions(), f),
{
    assert forall|j: int| 0 <= j < declared.len() implies #[trigger] stamped[j]
        == declared[j].stamped(y) by {
        declared[j].lemma_stamped(stamped[j], recip, y);
    }
    assert(stamped =~= declared.map_values(|c: ComponentType| c.stamped(y)));
    lemma_assembles_function(plus, matrix_before, stamped, held_matrix_contributions(), matrix_after, f);
    lemma_assembles_function(plus, rhs_before, stamped, held_rhs_contributions(), rhs_after, f);
    lemma_assembled_same_parts(
        matrix_before,
        stamped,
        declared,
        held_matrix_contributions(),
        matrix_contributions(y),
        f,
    );
    lemma_assembled_same_parts(
        rhs_before,
        stamped,
        declared,
        held_rhs_contributions(),
        rhs_contributions(),
        f,
    );
}

/// What a component of a direct-current network adds to the matrix: a
/// resistor its branch stamp, with the conductance that `conductance` gives
/// for its resistance; a source nothing.
pub open spec fn dc_matrix_contributions<'a>(conductance: spec_fn(Real64) -> Real64) -> spec_fn(
    components::ComponentType<'a>,
) -> Seq<Contribution<Real64>> {
    |c: components::ComponentType<'a>|
        match c {
            components::ComponentType::Resistor(resistor) => branch_contributions(
                spec_branch_stamp(conductance(resistor.params.resistance)),
                resistor.node_1,
                resistor.node_2,
            ),
            components::ComponentType::CurrentSource(source) => Seq::empty(),
        }
}

/// What a component of a direct-current network adds to the right-hand side:
/// a source its injection stamp, a resistor nothing.
pub open spec fn dc_rhs_contributions<'a>() -> spec_fn(components::ComponentType<'a>) -> Seq<
    Contribution<Real64>,
> {
    |c: components::ComponentType<'a>|
        match c {
            components::ComponentType::Resistor(resistor) => Seq::empty(),
            components::ComponentType::CurrentSource(source) => injection_contributions(
                spec_injection_stamp(source.params.set_point),
                source.node_1,
                source.node_2,
            ),
        }
}

/// What a component of a direct-current network adds to the matrix with the
/// stamp that it holds.
pub open spec fn dc_held_matrix_contributions<'a>() -> spec_fn(
    components::ComponentType<'a>,
) -> Seq<Contribution<Real64>> {
    |c: components::ComponentType<'a>|
        match c {
            components::ComponentType::Resistor(resistor) => branch_contributions(
                resistor.stamp,
                resistor.node_1,
                resistor.node_2,
            ),
            components::ComponentType::CurrentSource(source) => Seq::empty(),
        }
}

/// What a component of a direct-current network adds to the right-hand side
/// with the stamp that it holds.
pub open spec fn dc_held_rhs_contributions<'a>() -> spec_fn(components::ComponentType<'a>) -> Seq<
    Contribution<Real64>,
> {
    |c: components::ComponentType<'a>|
        match c {
            components::ComponentType::Resistor(resistor) => Seq::empty(),
            components::ComponentType::CurrentSource(source) => injection_contributions(
                source.stamp,
                source.node_1,
                source.node_2,
            ),
        }
}

/// Both terminals of the component are the ground or rows of the system.
pub open spec fn dc_component_in_range(c: components::ComponentType, size: usize) -> bool {
    terminal_in_range(c.spec_terminals().0, size) && terminal_in_range(c.spec_terminals().1, size)
}

/// Every component has both terminals in range.
pub open spec fn dc_all_in_range(comps: Seq<components::ComponentType>, size: usize) -> bool {
    forall|k: int| 0 <= k < comps.len() ==> dc_component_in_range(#[trigger] comps[k], size)
}

/// Some component has no stamp.
pub open spec fn dc_any_degenerate(comps: Seq<components::ComponentType>) -> bool {
    exists|k: int| 0 <= k < comps.len() && (#[trigger] comps[k]).spec_is_degenerate()
}

/// Every component of `after` is the component of `before` at its place,
/// with its stamp computed.
pub open spec fn dc_all_computed<'a, R: Fn(Real64) -> Real64>(
    before: Seq<components::ComponentType<'a>>,
    after: Seq<components::ComponentType<'a>>,
    recip: R,
) -> bool {
    &&& after.len() == before.len()
    &&& forall|j: int| 0 <= j < before.len() ==> (#[trigger] after[j]).computed_from(before[j], recip)
}

impl Simulation<Real64> {
    /// The system of a direct-current network, with every coefficient zero:
    /// one unknown for each of its nodes.
    pub fn of_network(net: &Network) -> (sim: Self)
        ensures
            sim.wf(),
            sim.net_size == net.nodes@.len(),
            sim.net_matrix@ == constant_table(
                sim.net_size as int,
                sim.net_size as int,
                Real64::spec_zero(),
            ),
            sim.rhs_vector@ == constant_table(sim.net_size as int, 1, Real64::spec_zero()),
    {
        Self::with_size(net.nodes.len())
    }

    /// One assembly pass over a direct-current network: computes the stamp of
    /// every component and adds it to the system, in the order of the
    /// components.
    ///
    /// Nothing is changed unless every component can be stamped. If some
    /// terminal is neither the ground nor a row of the system, the pass fails
    /// with `OutOfRangeNodeReference`; otherwise, if some resistor has zero
    /// resistance, with `DegenerateComponent`.
    pub fn stamp_network<'a, R: Fn(Real64) -> Real64, A: Fn(Real64, Real64) -> Real64>(
        &mut self,
        net: &mut Network<'a>,
        recip: &R,
        plus: &A,
    ) -> (done: Result<(), SimulationError>)
        requires
            old(self).wf(),
            conductance_defined(*recip),
            total2(*plus),
        ensures
            final(self).wf(),
            final(self).net_size == old(self).net_size,
            final(net).node_params == old(net).node_params,
            final(net).comp_params == old(net).comp_params,
            final(net).nodes == old(net).nodes,
            !dc_all_in_range(old(net).comps@, old(self).net_size) ==> done == Err::<
                (),
                SimulationError,
            >(SimulationError::OutOfRangeNodeReference),
            dc_all_in_range(old(net).comps@, old(self).net_size) && dc_any_degenerate(old(net).comps@)
                ==> done == Err::<(), SimulationError>(SimulationError::DegenerateComponent),
            dc_all_in_range(old(net).comps@, old(self).net_size) && !dc_any_degenerate(old(net).comps@)
                ==> done is Ok,
            done is Err ==> *final(self) == *old(self) && *final(net) == *old(net),
            done is Ok ==> dc_all_computed(old(net).comps@, final(net).comps@, *recip),
            done is Ok ==> assembles(
                *plus,
                old(self).net_matrix@,
                final(net).comps@,
                dc_held_matrix_contributions(),
                final(self).net_matrix@,
            ),
            done is Ok ==> assembles(
                *plus,
                old(self).rhs_vector@,
                final(net).comps@,
                dc_held_rhs_contributions(),
                final(self).rhs_vector@,
            ),
    {
        let n = net.comps.len();
        let mut k: usize = 0;
        while k < n
            invariant
                k <= n,
                n == net.comps@.len(),
                *self == *old(self),
                *net == *old(net),
                self.wf(),
                forall|j: int|
                    0 <= j < k ==> dc_component_in_range(#[trigger] net.comps@[j], self.net_size),
            decreases n - k,
        {
            let (node_1, node_2) = net.comps[k].terminals();
            if (node_1 != GROUND && node_1 >= self.net_size) || (node_2 != GROUND && node_2
                >= self.net_size) {
                return Err(SimulationError::OutOfRangeNodeReference);
            }
            k += 1;
        }
        k = 0;
        while k < n
            invariant
                k <= n,
                n == net.comps@.len(),
                *self == *old(self),
                *net == *old(net),
                self.wf(),
                dc_all_in_range(net.comps@, self.net_size),
                forall|j: int| 0 <= j < k ==> !(#[trigger] net.comps@[j]).spec_is_degenerate(),
            decreases n - k,
        {
            if net.comps[k].is_degenerate() {
                return Err(SimulationError::DegenerateComponent);
            }
            k += 1;
        }
        let ghost before = net.comps@;
        k = 0;
        while k < n
            invariant
                k <= n,
                n == before.len(),
                n == net.comps@.len(),
                before == old(net).comps@,
                net.node_params == old(net).node_params,
                net.comp_params == old(net).comp_params,
                net.nodes == old(net).nodes,
                conductance_defined(*recip),
                total2(*plus),
                self.wf(),
                self.net_size == old(self).net_size,
                dc_all_in_range(before, self.net_size),
                !dc_any_degenerate(before),
                forall|j: int| k <= j < n ==> #[trigger] net.comps@[j] == before[j],
                forall|j: int|
                    0 <= j < k ==> (#[trigger] net.comps@[j]).computed_from(before[j], *recip),
                assembles(
                    *plus,
                    old(self).net_matrix@,
                    net.comps@.take(k as int),
                    dc_held_matrix_contributions(),
                    self.net_matrix@,
                ),
                assembles(
                    *plus,
                    old(self).rhs_vector@,
                    net.comps@.take(k as int),
                    dc_held_rhs_contributions(),
                    self.rhs_vector@,
                ),
            decreases n - k,
        {
            let ghost matrix_before = self.net_matrix@;
            let ghost rhs_before = self.rhs_vector@;
            let ghost comps_before = net.comps@;
            proof {
                assert(dc_component_in_range(before[k as int], self.net_size));
                assert(!before[k as int].spec_is_degenerate());
            }
            let computed = net.comps[k].calculate_stamp(recip);
            let added = match &net.comps[k] {
                components::ComponentType::Resistor(resistor) => self.stamp_branch(
                    &resistor.stamp,
                    resistor.node_1,
                    resistor.node_2,
                    plus,
                ),
                components::ComponentType::CurrentSource(source) => self.stamp_node_injection(
                    &source.stamp,
                    source.node_1,
                    source.node_2,
                    plus,
                ),
            };
            assert(computed is Ok && added is Ok);
            proof {
                let this = net.comps@[k as int];
                assert(net.comps@.take(k as int) == comps_before.take(k as int));
                assert(net.comps@.take(k + 1) == comps_before.take(k as int).push(this));
                assert forall|j: int| 0 <= j < k + 1 implies (#[trigger] net.comps@[j]).computed_from(
                    before[j],
                    *recip,
                ) by {
                    if j < k {
                        assert(net.comps@[j] == comps_before[j]);
                    }
                }
                lemma_assembles_push(
                    *plus,
                    old(self).net_matrix@,
                    comps_before.take(k as int),
                    matrix_before,
                    this,
                    dc_held_matrix_contributions(),
                    self.net_matrix@,
                );
                lemma_assembles_push(
                    *plus,
                    old(self).rhs_vector@,
                    comps_before.take(k as int),
                    rhs_before,
                    this,
                    dc_held_rhs_contributions(),
                    self.rhs_vector@,
                );
            }
            k += 1;
        }
        assert(net.comps@.take(n as int) == net.comps@);
        Ok(())
    }
}

/// What an assembly pass over a direct-current network has done, where the
/// caller's reciprocal computes the function `y` and the caller's sum the
/// function `f`: every component
/// holds the stamp that `y` gives for its parameters, and the matrix and the
/// right-hand side are what the declared components assemble to with `y` and
/// `f`.
pub proof fn lemma_dc_pass_assembles_declarations<
    'a,
    R: Fn(Real64) -> Real64,
    A: Fn(Real64, Real64) -> Real64,
>(
    recip: R,
    plus: A,
    declared: Seq<components::ComponentType<'a>>,
    stamped: Seq<components::ComponentType<'a>>,
    matrix_before: Seq<Seq<Real64>>,
    matrix_after: Seq<Seq<Real64>>,
    rhs_before: Seq<Seq<Real64>>,
    rhs_after: Seq<Seq<Real64>>,
    y: spec_fn(Real64) -> Real64,
    f: spec_fn(Real64, Real64) -> Real64,
)
    requires
        dc_all_computed(declared, stamped, recip),
        assembles(plus, matrix_before, stamped, dc_held_matrix_contributions(), matrix_after),
        assembles(plus, rhs_before, stamped, dc_held_rhs_contributions(), rhs_after),
        computes1(recip, y),
        computes2(plus, f),
    ensures
        stamped == declared.map_values(|c: components::ComponentType<'a>| c.stamped(y)),
        matrix_after == assembled(matrix_before, declared, dc_matrix_contributions(y), f),
        rhs_after == assembled(rhs_before, declared, dc_rhs_contributions(), f),
{
    assert forall|j: int| 0 <= j < declared.len() implies #[trigger] stamped[j]
        == declared[j].stamped(y) by {
        declared[j].lemma_stamped(stamped[j], recip, y);
    }
    assert(stamped =~= declared.map_values(|c: components::ComponentType<'a>| c.stamped(y)));
    lemma_assembles_function(plus, matrix_before, stamped, dc_held_matrix_contributions(), matrix_after, f);
    lemma_assembles_function(plus, rhs_before, stamped, dc_held_rhs_contributions(), rhs_after, f);
    lemma_assembled_same_parts(
        matrix_before,
        stamped,
        declared,
        dc_held_matrix_contributions(),
        dc_matrix_contributions(y),
        f,
    );
    lemma_assembled_same_parts(
        rhs_before,
        stamped,
        declared,
        dc_held_rhs_contributions(),
        dc_rhs_contributions(),
        f,
    );
}

} // verus!
