//! Networks for direct-current analysis: real set points and conductances,
//! terminals given by reference to a declared node.

use crate::error::SimulationError;
use crate::math::{Matrix2x1, Matrix2x1f64, Matrix2x2, Matrix2x2f64};
use crate::models::GROUND;
use crate::scalar::{computes1, Real64, Scalar};
use crate::stamp::{branch_stamp, injection_stamp, spec_branch_stamp, spec_injection_stamp};
use vstd::prelude::*;

verus! {

#[derive(Clone, Copy, Debug, PartialEq, Eq, Structural)]
pub enum NodeType {
    Network,
    Ground,
}

/// The declaration of a node. A node is known by its `id`.
#[derive(Debug, PartialEq)]
pub struct NodeParams {
    pub id: String,
    pub node_type: NodeType,
}

#[derive(Debug)]
pub enum ComponentParams<'a> {
    Resistor(ResistorParams<'a>),
    CurrentSource(CurrentSourceParams<'a>),
}

/// A branch of the given resistance between two declared nodes.
#[derive(Debug)]
pub struct ResistorParams<'a> {
    pub id: String,
    pub resistance: Real64,
    pub node_1: &'a NodeParams,
    pub node_2: &'a NodeParams,
}

/// A source that drives the current `set_point` from `node_1` to `node_2`.
#[derive(Debug)]
pub struct CurrentSourceParams<'a> {
    pub id: String,
    pub set_point: Real64,
    pub node_1: &'a NodeParams,
    pub node_2: &'a NodeParams,
}

#[derive(Debug)]
pub enum ComponentType<'a> {
    Resistor(Resistor<'a>),
    CurrentSource(CurrentSource<'a>),
}

/// A network: the declarations of its nodes and components, and the
/// simulation objects made from them.
#[derive(Debug)]
pub struct Network<'a> {
    pub node_params: Vec<&'a NodeParams>,
    pub comp_params: Vec<&'a ComponentParams<'a>>,
    pub nodes: Vec<Node<'a>>,
    pub comps: Vec<ComponentType<'a>>,
}

/// A declared node together with its row in the system.
#[derive(Debug)]
pub struct Node<'a> {
    pub params: &'a NodeParams,
    pub index: usize,
}

/// A resistor with its terminals resolved to indices.
#[derive(Debug)]
pub struct Resistor<'a> {
    pub params: &'a ResistorParams<'a>,
    pub stamp: Matrix2x2f64,
    pub node_1: usize,
    pub node_2: usize,
}

/// A current source with its terminals resolved to indices.
#[derive(Debug)]
pub struct CurrentSource<'a> {
    pub params: &'a CurrentSourceParams<'a>,
    pub stamp: Matrix2x1f64,
    pub node_1: usize,
    pub node_2: usize,
}

/// How many of the declarations are not a ground.
pub open spec fn network_count(decls: Seq<&NodeParams>) -> nat
    decreases decls.len(),
{
    if decls.len() == 0 {
        0
    } else if decls.last().node_type == NodeType::Ground {
        network_count(decls.drop_last())
    } else {
        network_count(decls.drop_last()) + 1
    }
}

/// The nodes of the system: the declarations that are not a ground, in their
/// order, each numbered by how many such declarations stand before it.
pub open spec fn indexed_nodes<'a>(decls: Seq<&'a NodeParams>) -> Seq<Node<'a>>
    decreases decls.len(),
{
    if decls.len() == 0 {
        Seq::empty()
    } else if decls.last().node_type == NodeType::Ground {
        indexed_nodes(decls.drop_last())
    } else {
        indexed_nodes(decls.drop_last()).push(
            Node { params: decls.last(), index: network_count(decls.drop_last()) as usize },
        )
    }
}

/// The declaration at position `k` is the first one of the node `id`.
pub open spec fn is_first_declaration(decls: Seq<&NodeParams>, id: Seq<char>, k: int) -> bool {
    &&& 0 <= k < decls.len()
    &&& decls[k].id@ == id
    &&& forall|j: int| 0 <= j < k ==> (#[trigger] decls[j]).id@ != id
}

/// The node `id` has been declared.
pub open spec fn declared(decls: Seq<&NodeParams>, id: Seq<char>) -> bool {
    exists|k: int| is_first_declaration(decls, id, k)
}

/// The terminal index of the declaration at position `k`: the ground
/// sentinel for a ground, else the number of the node.
pub open spec fn terminal_at(decls: Seq<&NodeParams>, k: int) -> usize {
    if decls[k].node_type == NodeType::Ground {
        GROUND
    } else {
        network_count(decls.take(k)) as usize
    }
}

/// The terminal index of the node `id`, by its first declaration.
pub open spec fn resolved_terminal(decls: Seq<&NodeParams>, id: Seq<char>) -> usize {
    terminal_at(decls, choose|k: int| is_first_declaration(decls, id, k))
}

/// Both nodes that the component refers to have been declared.
pub open spec fn component_declared(decls: Seq<&NodeParams>, params: &ComponentParams) -> bool {
    match params {
        ComponentParams::Resistor(p) => declared(decls, p.node_1.id@) && declared(
            decls,
            p.node_2.id@,
        ),
        ComponentParams::CurrentSource(p) => declared(decls, p.node_1.id@) && declared(
            decls,
            p.node_2.id@,
        ),
    }
}

/// The component of a declaration: its terminals resolved, its stamp still
/// zero.
pub open spec fn resolved<'a>(decls: Seq<&NodeParams>, params: &'a ComponentParams<'a>) -> ComponentType<
    'a,
> {
    match params {
        ComponentParams::Resistor(p) => ComponentType::Resistor(
            Resistor {
                params: p,
                stamp: Matrix2x2 {
                    m11: Real64::spec_zero(),
                    m12: Real64::spec_zero(),
                    m21: Real64::spec_zero(),
                    m22: Real64::spec_zero(),
                },
                node_1: resolved_terminal(decls, p.node_1.id@),
                node_2: resolved_terminal(decls, p.node_2.id@),
            },
        ),
        ComponentParams::CurrentSource(p) => ComponentType::CurrentSource(
            CurrentSource {
                params: p,
                stamp: Matrix2x1 { x: Real64::spec_zero(), y: Real64::spec_zero() },
                node_1: resolved_terminal(decls, p.node_1.id@),
                node_2: resolved_terminal(decls, p.node_2.id@),
            },
        ),
    }
}

/// The caller's reciprocal accepts every resistance that is not zero.
pub open spec fn conductance_defined<R: Fn(Real64) -> Real64>(recip: R) -> bool {
    forall|r: Real64| !r.spec_is_zero() ==> #[trigger] recip.requires((r,))
}

/// No more declarations count than there are.
pub proof fn lemma_network_count_bound(decls: Seq<&NodeParams>)
    ensures
        network_count(decls) <= decls.len(),
    decreases decls.len(),
{
    if decls.len() > 0 {
        lemma_network_count_bound(decls.drop_last());
    }
}

/// A node has one first declaration.
pub proof fn lemma_first_declaration_unique(decls: Seq<&NodeParams>, id: Seq<char>, k: int)
    requires
        is_first_declaration(decls, id, k),
    ensures
        declared(decls, id),
        (choose|j: int| is_first_declaration(decls, id, j)) == k,
{
    let j = choose|j: int| is_first_declaration(decls, id, j);
    if j < k {
        assert(decls[j].id@ != id);
    } else if k < j {
        assert(decls[k].id@ != id);
    }
}

impl<'a> Network<'a> {
    pub fn new() -> (net: Self)
        ensures
            net.node_params@.len() == 0,
            net.comp_params@.len() == 0,
            net.nodes@.len() == 0,
            net.comps@.len() == 0,
    {
        Self {
            node_params: Vec::new(),
            comp_params: Vec::new(),
            nodes: Vec::new(),
            comps: Vec::new(),
        }
    }

    /// Declares a node, after those declared before it.
    pub fn add_node(&mut self, node_param: &'a NodeParams)
        ensures
            final(self).node_params@ == old(self).node_params@.push(node_param),
            final(self).comp_params == old(self).comp_params,
            final(self).nodes == old(self).nodes,
            final(self).comps == old(self).comps,
    {
        self.node_params.push(node_param);
    }

    /// Declares a component, after those declared before it.
    pub fn add_component(&mut self, comp_param: &'a ComponentParams<'a>)
        ensures
            final(self).comp_params@ == old(self).comp_params@.push(comp_param),
            final(self).node_params == old(self).node_params,
            final(self).nodes == old(self).nodes,
            final(self).comps == old(self).comps,
    {
        self.comp_params.push(comp_param);
    }

    /// The terminal index of the node that `wanted` names, by its first
    /// declaration; `None` if it was never declared.
    pub fn resolve(&self, wanted: &NodeParams) -> (terminal: Option<usize>)
        ensures
            declared(self.node_params@, wanted.id@) ==> terminal == Some(
                resolved_terminal(self.node_params@, wanted.id@),
            ),
            !declared(self.node_params@, wanted.id@) ==> terminal.is_none(),
    {
        let ghost decls = self.node_params@;
        let n = self.node_params.len();
        let mut count: usize = 0;
        let mut k: usize = 0;
        while k < n
            invariant
                k <= n,
                n == decls.len(),
                decls == self.node_params@,
                count == network_count(decls.take(k as int)),
                forall|j: int| 0 <= j < k ==> (#[trigger] decls[j]).id@ != wanted.id@,
            decreases n - k,
        {
            let decl = self.node_params[k];
            if decl.id == wanted.id {
                proof {
                    lemma_first_declaration_unique(decls, wanted.id@, k as int);
                }
                if decl.node_type == NodeType::Ground {
                    return Some(GROUND);
                } else {
                    return Some(count);
                }
            }
            proof {
                assert(decls.take(k + 1).drop_last() == decls.take(k as int));
                assert(decls.take(k + 1).last() == decls[k as int]);
                lemma_network_count_bound(decls.take(k as int));
            }
            if decl.node_type != NodeType::Ground {
                count += 1;
            }
            k += 1;
        }
        None
    }

    /// Makes the simulation objects from the declarations: a node with its
    /// index for every declaration that is not a ground, and a component
    /// with resolved terminals and a zero stamp for every component
    /// declaration. They replace those made before.
    ///
    /// If a component refers to a node that was never declared, the
    /// network is left as it was.
    pub fn generate_sim_objects(&mut self) -> (done: Result<(), SimulationError>)
        ensures
            final(self).node_params == old(self).node_params,
            final(self).comp_params == old(self).comp_params,
            (exists|j: int|
                0 <= j < old(self).comp_params@.len() && !component_declared(
                    old(self).node_params@,
                    #[trigger] old(self).comp_params@[j],
                )) ==> done == Err::<(), SimulationError>(SimulationError::UnresolvedNodeReference)
                && *final(self) == *old(self),
            (forall|j: int|
                0 <= j < old(self).comp_params@.len() ==> component_declared(
                    old(self).node_params@,
                    #[trigger] old(self).comp_params@[j],
                )) ==> done is Ok && final(self).nodes@ == indexed_nodes(old(self).node_params@)
                && final(self).comps@ == old(self).comp_params@.map_values(
                |p: &'a ComponentParams<'a>| resolved(old(self).node_params@, p),
            ),
    {
        let ghost decls = self.node_params@;
        let ghost comp_decls = self.comp_params@;
        let mut comps: Vec<ComponentType<'a>> = Vec::new();
        let m = self.comp_params.len();
        let mut j: usize = 0;
        while j < m
            invariant
                j <= m,
                m == comp_decls.len(),
                *self == *old(self),
                decls == self.node_params@,
                comp_decls == self.comp_params@,
                forall|i: int| 0 <= i < j ==> component_declared(decls, #[trigger] comp_decls[i]),
                comps@ == comp_decls.take(j as int).map_values(
                    |p: &'a ComponentParams<'a>| resolved(decls, p),
                ),
            decreases m - j,
        {
            let comp_param: &'a ComponentParams<'a> = self.comp_params[j];
            let (first, second) = match comp_param {
                ComponentParams::Resistor(p) => (self.resolve(p.node_1), self.resolve(p.node_2)),
                ComponentParams::CurrentSource(p) => (
                    self.resolve(p.node_1),
                    self.resolve(p.node_2),
                ),
            };
            let (node_1, node_2) = match (first, second) {
                (Some(node_1), Some(node_2)) => (node_1, node_2),
                _ => {
                    assert(!component_declared(decls, comp_decls[j as int]));
                    return Err(SimulationError::UnresolvedNodeReference);
                },
            };
            let comp = match comp_param {
                ComponentParams::Resistor(p) => ComponentType::Resistor(
                    Resistor { params: p, stamp: Matrix2x2f64::zeros(), node_1, node_2 },
                ),
                ComponentParams::CurrentSource(p) => ComponentType::CurrentSource(
                    CurrentSource { params: p, stamp: Matrix2x1f64::zeros(), node_1, node_2 },
                ),
            };
            assert(comp == resolved(decls, comp_param));
            comps.push(comp);
            assert(comp_decls.take(j + 1).map_values(
                |p: &'a ComponentParams<'a>| resolved(decls, p),
            ) == comp_decls.take(j as int).map_values(
                |p: &'a ComponentParams<'a>| resolved(decls, p),
            ).push(comp));
            j += 1;
        }
        assert(comp_decls.take(m as int) == comp_decls);
        let mut nodes: Vec<Node<'a>> = Vec::new();
        let n = self.node_params.len();
        let mut count: usize = 0;
        let mut k: usize = 0;
        while k < n
            invariant
                k <= n,
                n == decls.len(),
                *self == *old(self),
                decls == self.node_params@,
                count == network_count(decls.take(k as int)),
                nodes@ == indexed_nodes(decls.take(k as int)),
            decreases n - k,
        {
            proof {
                assert(decls.take(k + 1).drop_last() == decls.take(k as int));
                assert(decls.take(k + 1).last() == decls[k as int]);
                lemma_network_count_bound(decls.take(k as int));
            }
            let decl: &'a NodeParams = self.node_params[k];
            if decl.node_type != NodeType::Ground {
                nodes.push(Node { params: decl, index: count });
                count += 1;
            }
            k += 1;
        }
        assert(decls.take(n as int) == decls);
        self.nodes = nodes;
        self.comps = comps;
        Ok(())
    }
}

impl<'a> Resistor<'a> {
    /// Computes the stamp from the resistance: with `g` its reciprocal, as
    /// `recip` gives it, `g` on the diagonal and `-g` off it. A resistor of
    /// zero resistance is refused and keeps its stamp.
    pub fn calculate_stamp<R: Fn(Real64) -> Real64>(&mut self, recip: &R) -> (done: Result<
        (),
        SimulationError,
    >)
        requires
            conductance_defined(*recip),
        ensures
            final(self).params == old(self).params,
            final(self).node_1 == old(self).node_1,
            final(self).node_2 == old(self).node_2,
            old(self).params.resistance.spec_is_zero() ==> done == Err::<(), SimulationError>(
                SimulationError::DegenerateComponent,
            ) && final(self).stamp == old(self).stamp,
            !old(self).params.resistance.spec_is_zero() ==> done is Ok && recip.ensures(
                (old(self).params.resistance,),
                final(self).stamp.m11,
            ) && final(self).stamp == spec_branch_stamp(final(self).stamp.m11),
    {
        if self.params.resistance.is_zero() {
            return Err(SimulationError::DegenerateComponent);
        }
        let conductance = recip(self.params.resistance);
        self.stamp = branch_stamp(conductance);
        Ok(())
    }
}

impl<'a> CurrentSource<'a> {
    /// Computes the stamp from the set point `i`: `i` above `-i`.
    pub fn calculate_stamp(&mut self)
        ensures
            final(self).params == old(self).params,
            final(self).node_1 == old(self).node_1,
            final(self).node_2 == old(self).node_2,
            final(self).stamp == spec_injection_stamp(old(self).params.set_point),
    {
        self.stamp = injection_stamp(self.params.set_point);
    }
}

impl<'a> ComponentType<'a> {
    /// The two terminals of the component.
    pub open spec fn spec_terminals(self) -> (usize, usize) {
        match self {
            ComponentType::Resistor(resistor) => (resistor.node_1, resistor.node_2),
            ComponentType::CurrentSource(source) => (source.node_1, source.node_2),
        }
    }

    pub fn terminals(&self) -> (nodes: (usize, usize))
        ensures
            nodes == self.spec_terminals(),
    {
        match self {
            ComponentType::Resistor(resistor) => (resistor.node_1, resistor.node_2),
            ComponentType::CurrentSource(source) => (source.node_1, source.node_2),
        }
    }

    /// Whether the component is a resistor of zero resistance.
    pub open spec fn spec_is_degenerate(self) -> bool {
        match self {
            ComponentType::Resistor(resistor) => resistor.params.resistance.spec_is_zero(),
            ComponentType::CurrentSource(source) => false,
        }
    }

    pub fn is_degenerate(&self) -> (b: bool)
        ensures
            b == self.spec_is_degenerate(),
    {
        match self {
            ComponentType::Resistor(resistor) => resistor.params.resistance.is_zero(),
            ComponentType::CurrentSource(source) => false,
        }
    }

    /// The conductance that the stamp of a resistor holds. A source has
    /// none; for it this is zero.
    pub open spec fn spec_conductance(self) -> Real64 {
        match self {
            ComponentType::Resistor(resistor) => resistor.stamp.m11,
            ComponentType::CurrentSource(source) => Real64::spec_zero(),
        }
    }

    /// The component with its stamp computed from its parameters: a
    /// resistor with the stamp of the conductance `g`, a source with the
    /// stamp of its set point.
    pub open spec fn with_conductance(self, g: Real64) -> Self {
        match self {
            ComponentType::Resistor(resistor) => ComponentType::Resistor(
                Resistor {
                    params: resistor.params,
                    stamp: spec_branch_stamp(g),
                    node_1: resistor.node_1,
                    node_2: resistor.node_2,
                },
            ),
            ComponentType::CurrentSource(source) => ComponentType::CurrentSource(
                CurrentSource {
                    params: source.params,
                    stamp: spec_injection_stamp(source.params.set_point),
                    node_1: source.node_1,
                    node_2: source.node_2,
                },
            ),
        }
    }

    /// The component with its stamp computed as in `after`: the same
    /// declaration and terminals, and the conductance that `after` holds.
    pub open spec fn with_stamp_of(self, after: Self) -> Self {
        self.with_conductance(after.spec_conductance())
    }

    /// The component with its stamp computed from its parameters, where
    /// `conductance` gives the reciprocal of a resistance.
    pub open spec fn stamped(self, conductance: spec_fn(Real64) -> Real64) -> Self {
        match self {
            ComponentType::Resistor(resistor) => self.with_conductance(
                conductance(resistor.params.resistance),
            ),
            ComponentType::CurrentSource(source) => self.with_conductance(Real64::spec_zero()),
        }
    }

    /// This component is `before` with its stamp computed: the same
    /// declaration and terminals, and for a resistor the stamp of a
    /// conductance that `recip` returned for its resistance.
    pub open spec fn computed_from<R: Fn(Real64) -> Real64>(self, before: Self, recip: R) -> bool {
        &&& self == before.with_stamp_of(self)
        &&& before matches ComponentType::Resistor(resistor) ==> recip.ensures(
            (resistor.params.resistance,),
            self.spec_conductance(),
        )
    }

    /// Computes the stamp of the component, whatever its kind: that of a
    /// resistor from the reciprocal of its resistance, as `recip` returns
    /// it. A resistor of zero resistance is refused and keeps its stamp.
    pub fn calculate_stamp<R: Fn(Real64) -> Real64>(&mut self, recip: &R) -> (done: Result<
        (),
        SimulationError,
    >)
        requires
            conductance_defined(*recip),
        ensures
            old(self).spec_is_degenerate() ==> done == Err::<(), SimulationError>(
                SimulationError::DegenerateComponent,
            ) && *final(self) == *old(self),
            !old(self).spec_is_degenerate() ==> done is Ok && final(self).computed_from(
                *old(self),
                *recip,
            ),
    {
        match self {
            ComponentType::Resistor(resistor) => resistor.calculate_stamp(recip),
            ComponentType::CurrentSource(source) => {
                source.calculate_stamp();
                Ok(())
            },
        }
    }

    /// Computing the stamp again, from parameters that have not changed,
    /// gives the same stamp.
    pub proof fn lemma_stamped_idempotent(self, conductance: spec_fn(Real64) -> Real64)
        ensures
            self.stamped(conductance).stamped(conductance) == self.stamped(conductance),
    {
    }

    /// A component that has computed its stamp holds the stamp that any
    /// function gives which the caller's reciprocal computes.
    pub proof fn lemma_stamped<R: Fn(Real64) -> Real64>(
        self,
        after: Self,
        recip: R,
        conductance: spec_fn(Real64) -> Real64,
    )
        requires
            after.computed_from(self, recip),
            computes1(recip, conductance),
        ensures
            after == self.stamped(conductance),
    {
    }
}

} // verus!
