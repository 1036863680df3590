//! Superposition: the assembled system does not depend on the order in which
//! the components are stamped, provided that the sum itself does not depend
//! on the order of its terms.

use crate::components;
use crate::math::{has_shape, Matrix2x2};
use crate::models::{ComponentType, Line};
use crate::scalar::{computes1, computes2, Complex64, Real64, Scalar};
use crate::simulation::{
    accumulated, accumulator, all_computed, assembled, assembles, branch_contributions,
    component_step, dc_all_computed, dc_held_matrix_contributions, dc_held_rhs_contributions,
    dc_matrix_contributions, dc_rhs_contributions, held_matrix_contributions,
    held_rhs_contributions, lemma_assembled_push, lemma_dc_pass_assembles_declarations,
    lemma_pass_assembles_declarations, lemma_superposed_empty, lemma_superposed_push,
    matrix_contributions, rhs_contributions, superposed, Contribution,
};
use crate::stamp::spec_branch_stamp;
use vstd::prelude::*;
use vstd::seq_lib::{commutative_foldl, lemma_fold_left_permutation, lemma_multiset_commutative};

verus! {

/// Adding two terms to a value gives the same result in either order. An
/// associative and commutative sum has this property; the rounded sum of
/// floating-point numbers has it only on some arguments.
pub open spec fn sums_commute<T>(f: spec_fn(T, T) -> T) -> bool {
    forall|x: T, u: T, v: T| #[trigger] f(f(x, u), v) == f(f(x, v), u)
}

/// Two contributions can be made in either order.
pub proof fn lemma_accumulated_commutes<T>(
    table: Seq<Seq<T>>,
    c1: Contribution<T>,
    c2: Contribution<T>,
    f: spec_fn(T, T) -> T,
)
    requires
        sums_commute(f),
    ensures
        accumulated(accumulated(table, c1, f), c2, f) == accumulated(
            accumulated(table, c2, f),
            c1,
            f,
        ),
{
    let left = accumulated(accumulated(table, c1, f), c2, f);
    let right = accumulated(accumulated(table, c2, f), c1, f);
    assert(left =~~= right);
}

/// Contributions made in two runs are the contributions of the two runs
/// joined.
pub proof fn lemma_superposed_concat<T>(
    table: Seq<Seq<T>>,
    a: Seq<Contribution<T>>,
    b: Seq<Contribution<T>>,
    f: spec_fn(T, T) -> T,
)
    ensures
        superposed(table, a + b, f) == superposed(superposed(table, a, f), b, f),
{
    let joined = a + b;
    assert(joined.subrange(0, a.len() as int) == a);
    assert(joined.subrange(a.len() as int, joined.len() as int) == b);
    joined.lemma_fold_left_split(table, accumulator(f), a.len() as int);
}

/// The same contributions in another order give the same table.
pub proof fn lemma_superposed_order_independent<T>(
    table: Seq<Seq<T>>,
    a: Seq<Contribution<T>>,
    b: Seq<Contribution<T>>,
    f: spec_fn(T, T) -> T,
)
    requires
        sums_commute(f),
        a.to_multiset() == b.to_multiset(),
    ensures
        superposed(table, a, f) == superposed(table, b, f),
{
    let step = accumulator(f);
    assert(commutative_foldl(step)) by {
        assert forall|x: Contribution<T>, y: Contribution<T>, v: Seq<Seq<T>>| #[trigger]
            step(step(v, x), y) == step(step(v, y), x) by {
            lemma_accumulated_commutes(v, x, y, f);
        }
    }
    lemma_fold_left_permutation(a, b, step, table);
}

/// Reordering the components does not change what they assemble to: if `b`
/// lists the components of `a` in another order, both give the same table.
pub proof fn lemma_assembled_order_independent<T, C>(
    table: Seq<Seq<T>>,
    a: Seq<C>,
    b: Seq<C>,
    parts: spec_fn(C) -> Seq<Contribution<T>>,
    f: spec_fn(T, T) -> T,
)
    requires
        sums_commute(f),
        a.to_multiset() == b.to_multiset(),
    ensures
        assembled(table, a, parts, f) == assembled(table, b, parts, f),
{
    let step = component_step(parts, f);
    assert(commutative_foldl(step)) by {
        assert forall|x: C, y: C, v: Seq<Seq<T>>| #[trigger] step(step(v, x), y) == step(
            step(v, y),
            x,
        ) by {
            lemma_superposed_concat(v, parts(x), parts(y), f);
            lemma_superposed_concat(v, parts(y), parts(x), f);
            lemma_multiset_commutative(parts(x), parts(y));
            lemma_multiset_commutative(parts(y), parts(x));
            assert(parts(x).to_multiset().add(parts(y).to_multiset()) =~= parts(
                y,
            ).to_multiset().add(parts(x).to_multiset()));
            lemma_superposed_order_independent(v, parts(x) + parts(y), parts(y) + parts(x), f);
        }
    }
    lemma_fold_left_permutation(a, b, step, table);
}

/// Reordering the components of a network changes neither the matrix nor
/// the right-hand side that an assembly pass arrives at.
pub proof fn lemma_reordering_preserves_system(
    matrix: Seq<Seq<Complex64>>,
    rhs: Seq<Seq<Complex64>>,
    a: Seq<ComponentType>,
    b: Seq<ComponentType>,
    admittance: spec_fn(Real64, Real64) -> Complex64,
    f: spec_fn(Complex64, Complex64) -> Complex64,
)
    requires
        sums_commute(f),
        a.to_multiset() == b.to_multiset(),
    ensures
        assembled(matrix, a, matrix_contributions(admittance), f) == assembled(
            matrix,
            b,
            matrix_contributions(admittance),
            f,
        ),
        assembled(rhs, a, rhs_contributions(), f) == assembled(rhs, b, rhs_contributions(), f),
{
    lemma_assembled_order_independent(matrix, a, b, matrix_contributions(admittance), f);
    lemma_assembled_order_independent(rhs, a, b, rhs_contributions(), f);
}

/// Two assembly passes from the same system, over networks that list the
/// same components in different orders, end with the same matrix and the
/// same right-hand side.
pub proof fn lemma_passes_agree_on_reordered_networks<
    R: Fn(Real64, Real64) -> Complex64,
    A: Fn(Complex64, Complex64) -> Complex64,
>(
    recip: R,
    plus: A,
    matrix: Seq<Seq<Complex64>>,
    rhs: Seq<Seq<Complex64>>,
    a: Seq<ComponentType>,
    a_stamped: Seq<ComponentType>,
    a_matrix: Seq<Seq<Complex64>>,
    a_rhs: Seq<Seq<Complex64>>,
    b: Seq<ComponentType>,
    b_stamped: Seq<ComponentType>,
    b_matrix: Seq<Seq<Complex64>>,
    b_rhs: Seq<Seq<Complex64>>,
    y: spec_fn(Real64, Real64) -> Complex64,
    f: spec_fn(Complex64, Complex64) -> Complex64,
)
    requires
        a.to_multiset() == b.to_multiset(),
        computes2(recip, y),
        computes2(plus, f),
        sums_commute(f),
        all_computed(a, a_stamped, recip),
        assembles(plus, matrix, a_stamped, held_matrix_contributions(), a_matrix),
        assembles(plus, rhs, a_stamped, held_rhs_contributions(), a_rhs),
        all_computed(b, b_stamped, recip),
        assembles(plus, matrix, b_stamped, held_matrix_contributions(), b_matrix),
        assembles(plus, rhs, b_stamped, held_rhs_contributions(), b_rhs),
    ensures
        a_matrix == b_matrix,
        a_rhs == b_rhs,
{
    lemma_pass_assembles_declarations(recip, plus, a, a_stamped, matrix, a_matrix, rhs, a_rhs, y, f);
    lemma_pass_assembles_declarations(recip, plus, b, b_stamped, matrix, b_matrix, rhs, b_rhs, y, f);
    lemma_reordering_preserves_system(matrix, rhs, a, b, y, f);
}

/// The same holds of a direct-current network.
pub proof fn lemma_reordering_preserves_dc_system<'a>(
    matrix: Seq<Seq<Real64>>,
    rhs: Seq<Seq<Real64>>,
    a: Seq<components::ComponentType<'a>>,
    b: Seq<components::ComponentType<'a>>,
    conductance: spec_fn(Real64) -> Real64,
    f: spec_fn(Real64, Real64) -> Real64,
)
    requires
        sums_commute(f),
        a.to_multiset() == b.to_multiset(),
    ensures
        assembled(matrix, a, dc_matrix_contributions(conductance), f) == assembled(
            matrix,
            b,
            dc_matrix_contributions(conductance),
            f,
        ),
        assembled(rhs, a, dc_rhs_contributions(), f) == assembled(
            rhs,
            b,
            dc_rhs_contributions(),
            f,
        ),
{
    lemma_assembled_order_independent(matrix, a, b, dc_matrix_contributions(conductance), f);
    lemma_assembled_order_independent(rhs, a, b, dc_rhs_contributions(), f);
}

/// The same holds of two assembly passes over direct-current networks.
pub proof fn lemma_dc_passes_agree_on_reordered_networks<
    'a,
    R: Fn(Real64) -> Real64,
    A: Fn(Real64, Real64) -> Real64,
>(
    recip: R,
    plus: A,
    matrix: Seq<Seq<Real64>>,
    rhs: Seq<Seq<Real64>>,
    a: Seq<components::ComponentType<'a>>,
    a_stamped: Seq<components::ComponentType<'a>>,
    a_matrix: Seq<Seq<Real64>>,
    a_rhs: Seq<Seq<Real64>>,
    b: Seq<components::ComponentType<'a>>,
    b_stamped: Seq<components::ComponentType<'a>>,
    b_matrix: Seq<Seq<Real64>>,
    b_rhs: Seq<Seq<Real64>>,
    y: spec_fn(Real64) -> Real64,
    f: spec_fn(Real64, Real64) -> Real64,
)
    requires
        a.to_multiset() == b.to_multiset(),
        computes1(recip, y),
        computes2(plus, f),
        sums_commute(f),
        dc_all_computed(a, a_stamped, recip),
        assembles(plus, matrix, a_stamped, dc_held_matrix_contributions(), a_matrix),
        assembles(plus, rhs, a_stamped, dc_held_rhs_contributions(), a_rhs),
        dc_all_computed(b, b_stamped, recip),
        assembles(plus, matrix, b_stamped, dc_held_matrix_contributions(), b_matrix),
        assembles(plus, rhs, b_stamped, dc_held_rhs_contributions(), b_rhs),
    ensures
        a_matrix == b_matrix,
        a_rhs == b_rhs,
{
    lemma_dc_pass_assembles_declarations(
        recip,
        plus,
        a,
        a_stamped,
        matrix,
        a_matrix,
        rhs,
        a_rhs,
        y,
        f,
    );
    lemma_dc_pass_assembles_declarations(
        recip,
        plus,
        b,
        b_stamped,
        matrix,
        b_matrix,
        rhs,
        b_rhs,
        y,
        f,
    );
    lemma_reordering_preserves_dc_system(matrix, rhs, a, b, y, f);
}

/// A branch between two different nodes of the system adds each entry of
/// its stamp to one entry of the matrix, and leaves every other entry as it
/// was.
pub proof fn lemma_branch_between_nodes<T>(
    table: Seq<Seq<T>>,
    size: usize,
    stamp: Matrix2x2<T>,
    node_1: usize,
    node_2: usize,
    f: spec_fn(T, T) -> T,
)
    requires
        has_shape(table, size as int, size as int),
        node_1 < size,
        node_2 < size,
        node_1 != node_2,
    ensures
        ({
            let after = superposed(table, branch_contributions(stamp, node_1, node_2), f);
            let (p, q) = (node_1 as int, node_2 as int);
            &&& has_shape(after, size as int, size as int)
            &&& after[p][p] == f(table[p][p], stamp.m11)
            &&& after[q][q] == f(table[q][q], stamp.m22)
            &&& after[p][q] == f(table[p][q], stamp.m12)
            &&& after[q][p] == f(table[q][p], stamp.m21)
            &&& forall|i: int, j: int|
                0 <= i < size && 0 <= j < size && !((i == p || i == q) && (j == p || j == q))
                    ==> after[i][j] == table[i][j]
        }),
{
    let none = Seq::<Contribution<T>>::empty();
    let c1 = Contribution { row: node_1, col: node_1, value: stamp.m11 };
    let c2 = Contribution { row: node_2, col: node_2, value: stamp.m22 };
    let c3 = Contribution { row: node_1, col: node_2, value: stamp.m12 };
    let c4 = Contribution { row: node_2, col: node_1, value: stamp.m21 };
    lemma_superposed_empty(table, f);
    lemma_superposed_push(table, none, c1, f);
    lemma_superposed_push(table, none.push(c1), c2, f);
    lemma_superposed_push(table, none.push(c1).push(c2), c3, f);
    lemma_superposed_push(table, none.push(c1).push(c2).push(c3), c4, f);
    assert(branch_contributions(stamp, node_1, node_2) == none.push(c1).push(c2).push(c3).push(c4));
}

/// Two equal branches in parallel between two different nodes add up: each
/// of the four entries receives its stamp entry twice, and nothing else
/// changes.
pub proof fn lemma_parallel_branches_superpose<T>(
    table: Seq<Seq<T>>,
    size: usize,
    stamp: Matrix2x2<T>,
    node_1: usize,
    node_2: usize,
    f: spec_fn(T, T) -> T,
)
    requires
        has_shape(table, size as int, size as int),
        node_1 < size,
        node_2 < size,
        node_1 != node_2,
    ensures
        ({
            let both = superposed(
                table,
                branch_contributions(stamp, node_1, node_2) + branch_contributions(
                    stamp,
                    node_1,
                    node_2,
                ),
                f,
            );
            let (p, q) = (node_1 as int, node_2 as int);
            &&& has_shape(both, size as int, size as int)
            &&& both[p][p] == f(f(table[p][p], stamp.m11), stamp.m11)
            &&& both[q][q] == f(f(table[q][q], stamp.m22), stamp.m22)
            &&& both[p][q] == f(f(table[p][q], stamp.m12), stamp.m12)
            &&& both[q][p] == f(f(table[q][p], stamp.m21), stamp.m21)
            &&& forall|i: int, j: int|
                0 <= i < size && 0 <= j < size && !((i == p || i == q) && (j == p || j == q))
                    ==> both[i][j] == table[i][j]
        }),
{
    let once = superposed(table, branch_contributions(stamp, node_1, node_2), f);
    lemma_branch_between_nodes(table, size, stamp, node_1, node_2, f);
    lemma_branch_between_nodes(once, size, stamp, node_1, node_2, f);
    lemma_superposed_concat(
        table,
        branch_contributions(stamp, node_1, node_2),
        branch_contributions(stamp, node_1, node_2),
        f,
    );
}

/// Two lines of the same impedance in parallel between two different nodes
/// assemble to twice the admittance `y` of one: both diagonal entries
/// receive `y` twice, both off-diagonal entries `-y` twice, and no other
/// entry changes.
pub proof fn lemma_parallel_lines_superpose(
    table: Seq<Seq<Complex64>>,
    size: usize,
    first: Line,
    second: Line,
    admittance: spec_fn(Real64, Real64) -> Complex64,
    f: spec_fn(Complex64, Complex64) -> Complex64,
)
    requires
        has_shape(table, size as int, size as int),
        first.params.node_1 < size,
        first.params.node_2 < size,
        first.params.node_1 != first.params.node_2,
        second.params.node_1 == first.params.node_1,
        second.params.node_2 == first.params.node_2,
        second.params.resistance == first.params.resistance,
        second.params.reactance == first.params.reactance,
    ensures
        ({
            let both = assembled(
                table,
                seq![ComponentType::Line(first), ComponentType::Line(second)],
                matrix_contributions(admittance),
                f,
            );
            let y = admittance(first.params.resistance, first.params.reactance);
            let (p, q) = (first.params.node_1 as int, first.params.node_2 as int);
            &&& has_shape(both, size as int, size as int)
            &&& both[p][p] == f(f(table[p][p], y), y)
            &&& both[q][q] == f(f(table[q][q], y), y)
            &&& both[p][q] == f(f(table[p][q], y.spec_neg()), y.spec_neg())
            &&& both[q][p] == f(f(table[q][p], y.spec_neg()), y.spec_neg())
            &&& forall|i: int, j: int|
                0 <= i < size && 0 <= j < size && !((i == p || i == q) && (j == p || j == q))
                    ==> both[i][j] == table[i][j]
        }),
{
    let parts = matrix_contributions(admittance);
    let one = ComponentType::Line(first);
    let two = ComponentType::Line(second);
    let none = Seq::<ComponentType>::empty();
    let stamp = spec_branch_stamp(admittance(first.params.resistance, first.params.reactance));
    assert(seq![one, two] == none.push(one).push(two));
    lemma_assembled_push(table, none, one, parts, f);
    lemma_assembled_push(table, none.push(one), two, parts, f);
    lemma_superposed_concat(table, parts(one), parts(two), f);
    lemma_parallel_branches_superpose(
        table,
        size,
        stamp,
        first.params.node_1,
        first.params.node_2,
        f,
    );
}

} // verus!
