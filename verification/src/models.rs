//! Networks for steady-state analysis at one frequency: complex set points
//! and admittances, terminals given by node index.

use crate::error::SimulationError;
use crate::math::{Matrix2x1, Matrix2x1c64, Matrix2x2, Matrix2x2c64};
use crate::scalar::{computes2, Complex64, Real64, Scalar};
use crate::stamp::{branch_stamp, injection_stamp, spec_branch_stamp, spec_injection_stamp};
use vstd::prelude::*;

verus! {

/// The terminal index that stands for the ground. It is no row of the system:
/// a vector cannot have that many entries.
pub const GROUND: usize = usize::MAX;

#[derive(Clone, Copy, Debug, PartialEq, Eq, Structural)]
pub enum NodeType {
    Network,
    PQbus,
    PVbus,
    RefBus,
    Ground,
}

#[derive(Clone, Debug, PartialEq, Eq)]
pub struct NodeParams {
    pub id: String,
    pub node_type: NodeType,
}

/// A declared node together with its row in the system.
#[derive(Debug)]
pub struct Node {
    pub params: NodeParams,
    pub index: usize,
}

/// The description of a network: its nodes and its components, in the order
/// of their declaration.
#[derive(Clone, Debug)]
pub struct NetworkParams {
    pub nodes: Vec<NodeParams>,
    pub comps: Vec<ComponentParams>,
}

/// The simulation objects made from a description.
#[derive(Debug)]
pub struct NetworkState {
    pub nodes: Vec<Node>,
    pub comps: Vec<ComponentType>,
}

#[derive(Clone, Debug)]
pub enum ComponentParams {
    CurrentSource(CurrentSourceParams),
    Line(LineParams),
    PQSource(PQSourceParams),
}

#[derive(Debug)]
pub enum ComponentType {
    Line(Line),
    CurrentSource(CurrentSource),
    PQSource(PQSource),
}

/// A branch of impedance `resistance + j·reactance` between two terminals.
#[derive(Clone, Debug)]
pub struct LineParams {
    pub id: String,
    pub resistance: Real64,
    pub reactance: Real64,
    pub node_1: usize,
    pub node_2: usize,
}

#[derive(Clone, Debug)]
pub struct Line {
    pub params: LineParams,
    pub stamp: Matrix2x2c64,
}

/// A source that drives the current `set_point` from `node_1` to `node_2`.
#[derive(Clone, Debug)]
pub struct CurrentSourceParams {
    pub id: String,
    pub set_point: Complex64,
    pub node_1: usize,
    pub node_2: usize,
}

#[derive(Clone, Debug)]
pub struct CurrentSource {
    pub params: CurrentSourceParams,
    pub stamp: Matrix2x1c64,
}

/// A power source at one node. Its set point is taken as a fixed current
/// from `node` to the ground.
#[derive(Clone, Debug)]
pub struct PQSourceParams {
    pub id: String,
    pub set_point: Complex64,
    pub node: usize,
}

#[derive(Clone, Debug)]
pub struct PQSource {
    pub params: PQSourceParams,
    pub stamp: Matrix2x1c64,
}

/// How many of the declarations are not a ground.
pub open spec fn network_count(decls: Seq<NodeParams>) -> nat
    decreases decls.len(),
{
    if decls.len() == 0 {
        0
    } else if decls.last().node_type == NodeType::Ground {
        network_count(decls.drop_last())
    } else {
        network_count(decls.drop_last()) + 1
    }
}

/// The nodes of the system: the declarations that are not a ground, in their
/// order, each numbered by how many such declarations stand before it.
pub open spec fn indexed_nodes(decls: Seq<NodeParams>) -> Seq<Node>
    decreases decls.len(),
{
    if decls.len() == 0 {
        Seq::empty()
    } else if decls.last().node_type == NodeType::Ground {
        indexed_nodes(decls.drop_last())
    } else {
        indexed_nodes(decls.drop_last()).push(
            Node { params: decls.last(), index: network_count(decls.drop_last()) as usize },
        )
    }
}

/// The component of a declaration, with its stamp still zero.
pub open spec fn instantiated(params: ComponentParams) -> ComponentType {
    match params {
        ComponentParams::Line(p) => ComponentType::Line(
            Line {
                params: p,
                stamp: Matrix2x2 {
                    m11: Complex64::spec_zero(),
                    m12: Complex64::spec_zero(),
                    m21: Complex64::spec_zero(),
                    m22: Complex64::spec_zero(),
                },
            },
        ),
        ComponentParams::CurrentSource(p) => ComponentType::CurrentSource(
            CurrentSource {
                params: p,
                stamp: Matrix2x1 { x: Complex64::spec_zero(), y: Complex64::spec_zero() },
            },
        ),
        ComponentParams::PQSource(p) => ComponentType::PQSource(
            PQSource {
                params: p,
                stamp: Matrix2x1 { x: Complex64::spec_zero(), y: Complex64::spec_zero() },
            },
        ),
    }
}

/// A branch without resistance and without reactance has no admittance.
pub open spec fn degenerate(resistance: Real64, reactance: Real64) -> bool {
    resistance.spec_is_zero() && reactance.spec_is_zero()
}

/// The caller's reciprocal accepts every impedance that is not zero.
pub open spec fn admittance_defined<R: Fn(Real64, Real64) -> Complex64>(recip: R) -> bool {
    forall|r: Real64, x: Real64| !degenerate(r, x) ==> #[trigger] recip.requires((r, x))
}

impl NodeParams {
    pub fn new(id: String, node_type: NodeType) -> (node: Self)
        ensures
            node.id == id,
            node.node_type == node_type,
    {
        NodeParams { id, node_type }
    }
}

impl NetworkParams {
    pub fn new() -> (net: Self)
        ensures
            net.nodes@.len() == 0,
            net.comps@.len() == 0,
    {
        Self { nodes: Vec::new(), comps: Vec::new() }
    }

    /// Declares a node and returns the terminal index by which components
    /// refer to it. A ground is not recorded: every ground is the one
    /// reference node, `GROUND`. Any other node is recorded after those
    /// declared before it, and the index is its position.
    pub fn add_node(&mut self, node_param: NodeParams) -> (index: usize)
        ensures
            final(self).comps == old(self).comps,
            node_param.node_type == NodeType::Ground ==> index == GROUND && final(self).nodes
                == old(self).nodes,
            node_param.node_type != NodeType::Ground ==> index == old(self).nodes@.len() && index
                != GROUND && final(self).nodes@ == old(self).nodes@.push(node_param),
    {
        if node_param.node_type == NodeType::Ground {
            GROUND
        } else {
            self.nodes.push(node_param);
            self.nodes.len() - 1
        }
    }

    /// Declares a component, after those declared before it.
    pub fn add_component(&mut self, comp_param: ComponentParams)
        ensures
            final(self).nodes == old(self).nodes,
            final(self).comps@ == old(self).comps@.push(comp_param),
    {
        self.comps.push(comp_param);
    }
}

impl NetworkState {
    pub fn new() -> (net: Self)
        ensures
            net.nodes@.len() == 0,
            net.comps@.len() == 0,
    {
        Self { nodes: Vec::new(), comps: Vec::new() }
    }

    /// Makes the simulation objects of a description and appends them: a node
    /// with its index for every declaration that is not a ground, and a
    /// component with a zero stamp for every component declaration.
    pub fn generate_sim_objects(&mut self, net_params: NetworkParams)
        ensures
            final(self).nodes@ == old(self).nodes@ + indexed_nodes(net_params.nodes@),
            final(self).comps@ == old(self).comps@ + net_params.comps@.map_values(
                |p: ComponentParams| instantiated(p),
            ),
    {
        let ghost decls = net_params.nodes@;
        let ghost comp_decls = net_params.comps@;
        assert(decls.len() == net_params.nodes.len() <= usize::MAX);
        let NetworkParams { nodes, comps } = net_params;
        let mut count: usize = 0;
        for node_params in it: nodes.into_iter()
            invariant
                it.seq() == decls,
                decls.len() <= usize::MAX,
                count == network_count(decls.take(it.index() as int)),
                self.nodes@ == old(self).nodes@ + indexed_nodes(decls.take(it.index() as int)),
                self.comps == old(self).comps,
        {
            proof {
                let k = it.index() as int;
                assert(decls.take(k + 1).drop_last() == decls.take(k));
                assert(decls.take(k + 1).last() == node_params);
                lemma_network_count_bound(decls.take(k));
            }
            if node_params.node_type != NodeType::Ground {
                self.nodes.push(Node { params: node_params, index: count });
                count += 1;
            }
        }
        assert(decls.take(decls.len() as int) == decls);
        for comp_param in it: comps.into_iter()
            invariant
                it.seq() == comp_decls,
                self.nodes@ == old(self).nodes@ + indexed_nodes(decls),
                self.comps@ == old(self).comps@ + comp_decls.take(it.index() as int).map_values(
                    |p: ComponentParams| instantiated(p),
                ),
        {
            let comp = match comp_param {
                ComponentParams::Line(res_params) => ComponentType::Line(
                    Line { stamp: Matrix2x2c64::zeros(), params: res_params },
                ),
                ComponentParams::CurrentSource(src_params) => ComponentType::CurrentSource(
                    CurrentSource { stamp: Matrix2x1c64::zeros(), params: src_params },
                ),
                ComponentParams::PQSource(src_params) => ComponentType::PQSource(
                    PQSource { stamp: Matrix2x1c64::zeros(), params: src_params },
                ),
            };
            assert(comp == instantiated(comp_param));
            self.comps.push(comp);
            assert(comp_decls.take(it.index() + 1).map_values(|p: ComponentParams| instantiated(p))
                == comp_decls.take(it.index() as int).map_values(
                |p: ComponentParams| instantiated(p),
            ).push(comp));
        }
        assert(comp_decls.take(comp_decls.len() as int) == comp_decls);
    }
}

/// No more declarations count than there are.
pub proof fn lemma_network_count_bound(decls: Seq<NodeParams>)
    ensures
        network_count(decls) <= decls.len(),
    decreases decls.len(),
{
    if decls.len() > 0 {
        lemma_network_count_bound(decls.drop_last());
    }
}

/// The nodes of the system are numbered `0, 1, 2, ...` without gaps, in the
/// order of their declaration, and none of them is a ground.
pub proof fn lemma_indices_contiguous(decls: Seq<NodeParams>)
    requires
        decls.len() <= usize::MAX,
    ensures
        indexed_nodes(decls).len() == network_count(decls),
        forall|k: int|
            0 <= k < indexed_nodes(decls).len() ==> (#[trigger] indexed_nodes(decls)[k]).index == k
                && indexed_nodes(decls)[k].index != GROUND && indexed_nodes(
                decls,
            )[k].params.node_type != NodeType::Ground,
    decreases decls.len(),
{
    if decls.len() > 0 {
        lemma_indices_contiguous(decls.drop_last());
        lemma_network_count_bound(decls.drop_last());
    }
}

/// Where no declaration is a ground, as in a description that `add_node`
/// has filled, every declaration becomes a node, and its index is its
/// position: the index that `add_node` returned for it.
pub proof fn lemma_indices_follow_declarations(decls: Seq<NodeParams>)
    requires
        decls.len() <= usize::MAX,
        forall|k: int| 0 <= k < decls.len() ==> (#[trigger] decls[k]).node_type != NodeType::Ground,
    ensures
        indexed_nodes(decls).len() == decls.len(),
        forall|k: int|
            0 <= k < decls.len() ==> (#[trigger] indexed_nodes(decls)[k]).params == decls[k]
                && indexed_nodes(decls)[k].index == k,
    decreases decls.len(),
{
    if decls.len() > 0 {
        let rest = decls.drop_last();
        assert forall|k: int| 0 <= k < rest.len() implies (#[trigger] rest[k]).node_type
            != NodeType::Ground by {
            assert(rest[k] == decls[k]);
        }
        lemma_indices_follow_declarations(rest);
        lemma_indices_contiguous(decls);
        assert(decls.last() == decls[decls.len() - 1]);
    }
}

impl LineParams {
    pub fn new(id: String, resistance: Real64, reactance: Real64, node_1: usize, node_2: usize) -> (p: Self)
        ensures
            p == (LineParams { id, resistance, reactance, node_1, node_2 }),
    {
        LineParams { id, resistance, reactance, node_1, node_2 }
    }
}

impl Line {
    /// Computes the stamp from the parameters: with `y` the reciprocal of the
    /// impedance, as `recip` returns it, `y` on the diagonal and `-y` off it.
    /// A line of zero impedance is refused and keeps its stamp.
    pub fn calculate_stamp<R: Fn(Real64, Real64) -> Complex64>(&mut self, recip: &R) -> (done: Result<
        (),
        SimulationError,
    >)
        requires
            admittance_defined(*recip),
        ensures
            final(self).params == old(self).params,
            degenerate(old(self).params.resistance, old(self).params.reactance) ==> done == Err::<
                (),
                SimulationError,
            >(SimulationError::DegenerateComponent) && final(self).stamp == old(self).stamp,
            !degenerate(old(self).params.resistance, old(self).params.reactance) ==> done is Ok
                && recip.ensures(
                (old(self).params.resistance, old(self).params.reactance),
                final(self).stamp.m11,
            ) && final(self).stamp == spec_branch_stamp(final(self).stamp.m11),
    {
        if self.params.resistance.is_zero() && self.params.reactance.is_zero() {
            return Err(SimulationError::DegenerateComponent);
        }
        let admittance = recip(self.params.resistance, self.params.reactance);
        self.stamp = branch_stamp(admittance);
        Ok(())
    }
}

impl ComponentType {
    /// The two terminals of the component. A source at one node has the
    /// ground as its second terminal.
    pub open spec fn spec_terminals(self) -> (usize, usize) {
        match self {
            ComponentType::Line(line) => (line.params.node_1, line.params.node_2),
            ComponentType::CurrentSource(source) => (source.params.node_1, source.params.node_2),
            ComponentType::PQSource(source) => (source.params.node, GROUND),
        }
    }

    pub fn terminals(&self) -> (nodes: (usize, usize))
        ensures
            nodes == self.spec_terminals(),
    {
        match self {
            ComponentType::Line(line) => (line.params.node_1, line.params.node_2),
            ComponentType::CurrentSource(source) => (source.params.node_1, source.params.node_2),
            ComponentType::PQSource(source) => (source.params.node, GROUND),
        }
    }

    /// Whether the component is a line of zero impedance.
    pub open spec fn spec_is_degenerate(self) -> bool {
        match self {
            ComponentType::Line(line) => degenerate(line.params.resistance, line.params.reactance),
            _ => false,
        }
    }

    pub fn is_degenerate(&self) -> (b: bool)
        ensures
            b == self.spec_is_degenerate(),
    {
        match self {
            ComponentType::Line(line) => line.params.resistance.is_zero()
                && line.params.reactance.is_zero(),
            _ => false,
        }
    }

    /// The admittance that the stamp of a line holds. A source has none; for
    /// it this is zero.
    pub open spec fn spec_admittance(self) -> Complex64 {
        match self {
            ComponentType::Line(line) => line.stamp.m11,
            _ => Complex64::spec_zero(),
        }
    }

    /// The component with its stamp computed from its parameters: a line
    /// with the stamp of the admittance `y`, a source with the stamp of its
    /// set point.
    pub open spec fn with_admittance(self, y: Complex64) -> Self {
        match self {
            ComponentType::Line(line) => ComponentType::Line(
                Line { params: line.params, stamp: spec_branch_stamp(y) },
            ),
            ComponentType::CurrentSource(source) => ComponentType::CurrentSource(
                CurrentSource {
                    params: source.params,
                    stamp: spec_injection_stamp(source.params.set_point),
                },
            ),
            ComponentType::PQSource(source) => ComponentType::PQSource(
                PQSource {
                    params: source.params,
                    stamp: spec_injection_stamp(source.params.set_point),
                },
            ),
        }
    }

    /// The component with its stamp computed as in `after`: the same
    /// declaration, and the admittance that `after` holds.
    pub open spec fn with_stamp_of(self, after: Self) -> Self {
        self.with_admittance(after.spec_admittance())
    }

    /// The component with its stamp computed from its parameters, where
    /// `admittance` gives the reciprocal of an impedance.
    pub open spec fn stamped(self, admittance: spec_fn(Real64, Real64) -> Complex64) -> Self {
        match self {
            ComponentType::Line(line) => self.with_admittance(
                admittance(line.params.resistance, line.params.reactance),
            ),
            _ => self.with_admittance(Complex64::spec_zero()),
        }
    }

    /// This component is `before` with its stamp computed: the same
    /// declaration, and for a line the stamp of an admittance that `recip`
    /// returned for its impedance.
    pub open spec fn computed_from<R: Fn(Real64, Real64) -> Complex64>(
        self,
        before: Self,
        recip: R,
    ) -> bool {
        &&& self == before.with_stamp_of(self)
        &&& before matches ComponentType::Line(line) ==> recip.ensures(
            (line.params.resistance, line.params.reactance),
            self.spec_admittance(),
        )
    }

    /// Computes the stamp of the component, whatever its kind: that of a
    /// line from the reciprocal of its impedance, as `recip` returns it. A
    /// line of zero impedance is refused and keeps its stamp.
    pub fn calculate_stamp<R: Fn(Real64, Real64) -> Complex64>(&mut self, recip: &R) -> (done:
        Result<(), SimulationError>)
        requires
            admittance_defined(*recip),
        ensures
            old(self).spec_is_degenerate() ==> done == Err::<(), SimulationError>(
                SimulationError::DegenerateComponent,
            ) && *final(self) == *old(self),
            !old(self).spec_is_degenerate() ==> done is Ok && final(self).computed_from(
                *old(self),
                *recip,
            ),
    {
        match self {
            ComponentType::Line(line) => line.calculate_stamp(recip),
            ComponentType::CurrentSource(source) => {
                source.calculate_stamp();
                Ok(())
            },
            ComponentType::PQSource(source) => {
                source.calculate_stamp();
                Ok(())
            },
        }
    }

    /// Computing the stamp again, from parameters that have not changed,
    /// gives the same stamp.
    pub proof fn lemma_stamped_idempotent(self, admittance: spec_fn(Real64, Real64) -> Complex64)
        ensures
            self.stamped(admittance).stamped(admittance) == self.stamped(admittance),
    {
    }

    /// A component that has computed its stamp holds the stamp that any
    /// function gives which the caller's reciprocal computes.
    pub proof fn lemma_stamped<R: Fn(Real64, Real64) -> Complex64>(
        self,
        after: Self,
        recip: R,
        admittance: spec_fn(Real64, Real64) -> Complex64,
    )
        requires
            after.computed_from(self, recip),
            computes2(recip, admittance),
        ensures
            after == self.stamped(admittance),
    {
    }
}

impl CurrentSourceParams {
    pub fn new(id: String, set_point: Complex64, node_1: usize, node_2: usize) -> (p: Self)
        ensures
            p == (CurrentSourceParams { id, set_point, node_1, node_2 }),
    {
        CurrentSourceParams { id, set_point, node_1, node_2 }
    }
}

impl CurrentSource {
    /// Computes the stamp from the set point `i`: `i` above `-i`.
    pub fn calculate_stamp(&mut self)
        ensures
            final(self).params == old(self).params,
            final(self).stamp == spec_injection_stamp(old(self).params.set_point),
    {
        self.stamp = injection_stamp(self.params.set_point);
    }
}

impl PQSource {
    /// Computes the stamp from the set point `s`, taken as a current: `s` above
    /// `-s`.
    pub fn calculate_stamp(&mut self)
        ensures
            final(self).params == old(self).params,
            final(self).stamp == spec_injection_stamp(old(self).params.set_point),
    {
        self.stamp = injection_stamp(self.params.set_point);
    }
}

} // verus!
