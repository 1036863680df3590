use dpsimrs::error::SimulationError;
use dpsimrs::math::DMatrix;
use dpsimrs::models::{
    ComponentParams, ComponentType, CurrentSourceParams, LineParams, NetworkParams, NetworkState,
    NodeParams, NodeType, PQSourceParams, GROUND,
};
use dpsimrs::scalar::{Complex64, Real64};
use dpsimrs::simulation::Simulation;
use nalgebra::Complex;

fn re64(x: f64) -> Real64 {
    Real64::from_bits(x.to_bits())
}

fn c64(re: f64, im: f64) -> Complex64 {
    Complex64::new(re64(re), re64(im))
}

fn to_na(c: Complex64) -> Complex<f64> {
    Complex::new(f64::from_bits(c.re.to_bits()), f64::from_bits(c.im.to_bits()))
}

fn from_na(c: Complex<f64>) -> Complex64 {
    c64(c.re, c.im)
}

fn recip(resistance: Real64, reactance: Real64) -> Complex64 {
    let z = Complex::new(f64::from_bits(resistance.to_bits()), f64::from_bits(reactance.to_bits()));
    from_na(1.0 / z)
}

fn plus(a: Complex64, b: Complex64) -> Complex64 {
    from_na(to_na(a) + to_na(b))
}

fn to_na_matrix(m: &DMatrix<Complex64>) -> nalgebra::DMatrix<Complex<f64>> {
    nalgebra::DMatrix::from_fn(m.nrows, m.ncols, |i, j| to_na(m.data[i][j]))
}

fn lu_solve(matrix: &DMatrix<Complex64>, rhs: &DMatrix<Complex64>) -> Option<DMatrix<Complex64>> {
    let x = to_na_matrix(matrix).lu().solve(&to_na_matrix(rhs))?;
    let rows: Vec<Vec<Complex64>> = (0..x.nrows()).map(|i| vec![from_na(x[(i, 0)])]).collect();
    DMatrix::from_rows(rows, 1)
}

fn node(id: &str, node_type: NodeType) -> NodeParams {
    NodeParams::new(id.to_string(), node_type)
}

fn line(id: &str, r: f64, x: f64, node_1: usize, node_2: usize) -> ComponentParams {
    ComponentParams::Line(LineParams::new(id.to_string(), re64(r), re64(x), node_1, node_2))
}

fn source(id: &str, re: f64, im: f64, node_1: usize, node_2: usize) -> ComponentParams {
    ComponentParams::CurrentSource(CurrentSourceParams::new(
        id.to_string(),
        c64(re, im),
        node_1,
        node_2,
    ))
}

fn assembled(params: NetworkParams) -> (Simulation<Complex64>, NetworkState) {
    let mut state = NetworkState::new();
    state.generate_sim_objects(params);
    let mut sim = Simulation::new(&mut state);
    sim.stamp(&mut state, &recip, &plus).expect("stamp");
    (sim, state)
}

#[test]
fn res_csrc_circuit() {
    let mut net_params = NetworkParams::new();

    let grd = net_params.add_node(NodeParams {
        id: "GRD".to_string(),
        node_type: NodeType::Ground,
    });
    let n1 = net_params.add_node(NodeParams {
        id: "N1".to_string(),
        node_type: NodeType::Network,
    });

    let r1 = ComponentParams::Line(LineParams {
        id: String::from("r1"),
        resistance: re64(1.0),
        reactance: re64(0.0),
        node_1: grd,
        node_2: n1,
    });

    net_params.add_component(r1);

    let c1 = ComponentParams::CurrentSource(CurrentSourceParams {
        id: String::from("c1"),
        set_point: c64(5.0, 0.0),
        node_1: grd,
        node_2: n1,
    });

    net_params.add_component(c1);
    println!("{:?}", net_params);

    let mut net_state = NetworkState::new();
    net_state.generate_sim_objects(net_params);

    println!("Nodes: \n{:?}\n", net_state.nodes);
    println!("Components: \n{:?}\n", net_state.comps);

    let mut sim = Simulation::new(&mut net_state);
    println!("Network Matrix: \n{}", to_na_matrix(&sim.net_matrix));
    println!("Right-hand vector: \n{}", to_na_matrix(&sim.rhs_vector));

    sim.stamp(&mut net_state, &recip, &plus).expect("stamp");
    println!("Network Matrix: \n{}", to_na_matrix(&sim.net_matrix));
    println!("Right-hand vector: \n{}", to_na_matrix(&sim.rhs_vector));

    let decomp = to_na_matrix(&sim.net_matrix).lu();
    let lhs_vector = decomp.solve(&to_na_matrix(&sim.rhs_vector)).expect("msg");
    println!("Left-hand vector: \n{}", lhs_vector);

    assert_eq!(lhs_vector[0], Complex::new(5.0, 0.0));
}

#[test]
fn solve_gives_the_node_voltage() {
    let mut params = NetworkParams::new();
    let grd = params.add_node(node("GRD", NodeType::Ground));
    let n1 = params.add_node(node("N1", NodeType::Network));
    params.add_component(line("r1", 1.0, 0.0, grd, n1));
    params.add_component(source("c1", 5.0, 0.0, grd, n1));
    let (sim, _) = assembled(params);
    let solved = sim.solve(&lu_solve).expect("solve");
    assert_eq!(solved.nrows, 1);
    assert_eq!(solved.ncols, 1);
    assert_eq!(to_na(solved.data[0][0]), Complex::new(5.0, 0.0));
}

#[test]
fn current_out_of_a_node_lowers_its_voltage() {
    let mut params = NetworkParams::new();
    let grd = params.add_node(node("GRD", NodeType::Ground));
    let n1 = params.add_node(node("N1", NodeType::Network));
    params.add_component(line("r1", 1.0, 0.0, grd, n1));
    params.add_component(source("c1", 5.0, 0.0, n1, grd));
    let (sim, _) = assembled(params);
    assert_eq!(to_na(sim.net_matrix.data[0][0]), Complex::new(1.0, 0.0));
    assert_eq!(to_na(sim.rhs_vector.data[0][0]), Complex::new(-5.0, 0.0));
    let solved = sim.solve(&lu_solve).expect("solve");
    assert_eq!(to_na(solved.data[0][0]), Complex::new(-5.0, 0.0));
}

#[test]
fn add_node_numbers_nodes_and_keeps_grounds_out() {
    let mut params = NetworkParams::new();
    assert_eq!(params.add_node(node("G1", NodeType::Ground)), GROUND);
    assert_eq!(params.add_node(node("A", NodeType::Network)), 0);
    assert_eq!(params.add_node(node("G2", NodeType::Ground)), usize::MAX);
    assert_eq!(params.add_node(node("B", NodeType::PQbus)), 1);
    assert_eq!(params.add_node(node("C", NodeType::RefBus)), 2);
    assert_eq!(params.nodes.len(), 3);
    assert_eq!(params.nodes[1].id, "B");
    assert!(params.comps.is_empty());
}

#[test]
fn indices_are_contiguous_where_grounds_are_listed() {
    let params = NetworkParams {
        nodes: vec![
            node("A", NodeType::Network),
            node("G", NodeType::Ground),
            node("B", NodeType::PVbus),
            node("G2", NodeType::Ground),
            node("C", NodeType::Network),
        ],
        comps: Vec::new(),
    };
    let mut state = NetworkState::new();
    state.generate_sim_objects(params);
    let seen: Vec<(String, usize)> =
        state.nodes.iter().map(|n| (n.params.id.clone(), n.index)).collect();
    assert_eq!(
        seen,
        vec![("A".to_string(), 0), ("B".to_string(), 1), ("C".to_string(), 2)]
    );
    let sim = Simulation::new(&mut state);
    assert_eq!(sim.net_size, 3);
}

#[test]
fn indexing_is_repeatable() {
    let build = || {
        let mut params = NetworkParams::new();
        params.add_node(node("G", NodeType::Ground));
        params.add_node(node("A", NodeType::Network));
        params.add_node(node("B", NodeType::Network));
        let mut state = NetworkState::new();
        state.generate_sim_objects(params);
        state.nodes.iter().map(|n| (n.params.id.clone(), n.index)).collect::<Vec<_>>()
    };
    assert_eq!(build(), build());
    assert_eq!(build(), vec![("A".to_string(), 0), ("B".to_string(), 1)]);
}

#[test]
fn components_start_with_zero_stamps() {
    let mut params = NetworkParams::new();
    let a = params.add_node(node("A", NodeType::Network));
    params.add_component(line("l", 2.0, 0.0, a, GROUND));
    params.add_component(source("s", 1.0, 2.0, a, GROUND));
    params.add_component(ComponentParams::PQSource(PQSourceParams {
        id: "pq".to_string(),
        set_point: c64(3.0, 4.0),
        node: a,
    }));
    let mut state = NetworkState::new();
    state.generate_sim_objects(params);
    assert_eq!(state.comps.len(), 3);
    match &state.comps[0] {
        ComponentType::Line(l) => {
            assert_eq!(l.params.id, "l");
            assert_eq!(l.stamp.m11, c64(0.0, 0.0));
            assert_eq!(l.stamp.m12, c64(0.0, 0.0));
            assert_eq!(l.stamp.m21, c64(0.0, 0.0));
            assert_eq!(l.stamp.m22, c64(0.0, 0.0));
        }
        _ => panic!("a line was declared first"),
    }
    match &state.comps[1] {
        ComponentType::CurrentSource(s) => {
            assert_eq!(s.stamp.x, c64(0.0, 0.0));
            assert_eq!(s.stamp.y, c64(0.0, 0.0));
        }
        _ => panic!("a current source was declared second"),
    }
    assert!(matches!(&state.comps[2], ComponentType::PQSource(_)));
}

#[test]
fn line_stamp_is_the_admittance_and_its_negation() {
    let mut params = NetworkParams::new();
    let a = params.add_node(node("A", NodeType::Network));
    let b = params.add_node(node("B", NodeType::Network));
    params.add_component(line("l", 2.0, 0.0, a, b));
    let (_, state) = assembled(params);
    match &state.comps[0] {
        ComponentType::Line(l) => {
            assert_eq!(to_na(l.stamp.m11), Complex::new(0.5, 0.0));
            assert_eq!(to_na(l.stamp.m22), Complex::new(0.5, 0.0));
            assert_eq!(to_na(l.stamp.m12), Complex::new(-0.5, 0.0));
            assert_eq!(to_na(l.stamp.m21), Complex::new(-0.5, 0.0));
        }
        _ => panic!("a line was declared"),
    }
}

#[test]
fn line_with_reactance_has_a_complex_admittance() {
    let mut params = NetworkParams::new();
    let a = params.add_node(node("A", NodeType::Network));
    params.add_component(line("l", 1.0, 1.0, a, GROUND));
    let (sim, _) = assembled(params);
    assert_eq!(to_na(sim.net_matrix.data[0][0]), Complex::new(0.5, -0.5));
}

#[test]
fn stamp_is_the_same_when_computed_again() {
    let mut params = NetworkParams::new();
    let a = params.add_node(node("A", NodeType::Network));
    params.add_component(line("l", 3.0, 7.0, a, GROUND));
    let mut state = NetworkState::new();
    state.generate_sim_objects(params);
    state.comps[0].calculate_stamp(&recip).expect("first");
    let first = match &state.comps[0] {
        ComponentType::Line(l) => l.stamp,
        _ => panic!("a line was declared"),
    };
    state.comps[0].calculate_stamp(&recip).expect("second");
    let second = match &state.comps[0] {
        ComponentType::Line(l) => l.stamp,
        _ => panic!("a line was declared"),
    };
    assert_eq!(first.m11, second.m11);
    assert_eq!(first.m12, second.m12);
    assert_eq!(first.m21, second.m21);
    assert_eq!(first.m22, second.m22);
}

#[test]
fn parallel_lines_add_their_admittances() {
    let mut params = NetworkParams::new();
    let a = params.add_node(node("A", NodeType::Network));
    let b = params.add_node(node("B", NodeType::Network));
    params.add_component(line("l1", 2.0, 0.0, a, b));
    params.add_component(line("l2", 2.0, 0.0, a, b));
    let (sim, _) = assembled(params);
    let m = to_na_matrix(&sim.net_matrix);
    assert_eq!(m[(0, 0)], Complex::new(1.0, 0.0));
    assert_eq!(m[(1, 1)], Complex::new(1.0, 0.0));
    assert_eq!(m[(0, 1)], Complex::new(-1.0, 0.0));
    assert_eq!(m[(1, 0)], Complex::new(-1.0, 0.0));
}

#[test]
fn injections_at_one_node_add_up() {
    let mut params = NetworkParams::new();
    let a = params.add_node(node("A", NodeType::Network));
    params.add_component(source("s1", 1.0, 0.5, GROUND, a));
    params.add_component(source("s2", 2.0, 0.25, GROUND, a));
    params.add_component(ComponentParams::PQSource(PQSourceParams {
        id: "pq".to_string(),
        set_point: c64(0.5, 0.0),
        node: a,
    }));
    let (sim, _) = assembled(params);
    assert_eq!(to_na(sim.rhs_vector.data[0][0]), Complex::new(2.5, 0.75));
}

#[test]
fn source_between_two_nodes_enters_one_and_leaves_the_other() {
    let mut params = NetworkParams::new();
    let a = params.add_node(node("A", NodeType::Network));
    let b = params.add_node(node("B", NodeType::Network));
    params.add_component(source("s", 3.0, 1.0, a, b));
    let (sim, state) = assembled(params);
    assert_eq!(to_na(sim.rhs_vector.data[0][0]), Complex::new(-3.0, -1.0));
    assert_eq!(to_na(sim.rhs_vector.data[1][0]), Complex::new(3.0, 1.0));
    match &state.comps[0] {
        ComponentType::CurrentSource(s) => {
            assert_eq!(to_na(s.stamp.x), Complex::new(3.0, 1.0));
            assert_eq!(to_na(s.stamp.y), Complex::new(-3.0, -1.0));
        }
        _ => panic!("a source was declared"),
    }
}

#[test]
fn reordering_components_gives_the_same_system() {
    let build = |order: [usize; 5]| {
        let mut params = NetworkParams::new();
        let g = params.add_node(node("G", NodeType::Ground));
        let a = params.add_node(node("A", NodeType::Network));
        let b = params.add_node(node("B", NodeType::Network));
        let c = params.add_node(node("C", NodeType::Network));
        let all = vec![
            line("l1", 1.0, 0.0, g, a),
            line("l2", 2.0, 0.0, a, b),
            line("l3", 4.0, 0.0, b, c),
            source("s1", 1.0, 0.0, g, a),
            source("s2", 0.5, 0.25, c, a),
        ];
        for i in order {
            params.add_component(all[i].clone());
        }
        let (sim, _) = assembled(params);
        (to_na_matrix(&sim.net_matrix), to_na_matrix(&sim.rhs_vector))
    };
    let (m1, r1) = build([0, 1, 2, 3, 4]);
    let (m2, r2) = build([4, 2, 0, 3, 1]);
    assert_eq!(m1, m2);
    assert_eq!(r1, r2);
    assert_eq!(m1[(0, 0)], Complex::new(1.5, 0.0));
    assert_eq!(m1[(1, 1)], Complex::new(0.75, 0.0));
    assert_eq!(m1[(2, 2)], Complex::new(0.25, 0.0));
    assert_eq!(m1[(0, 1)], Complex::new(-0.5, 0.0));
    assert_eq!(m1[(1, 2)], Complex::new(-0.25, 0.0));
    assert_eq!(m1[(0, 2)], Complex::new(0.0, 0.0));
    assert_eq!(r1[(0, 0)], Complex::new(1.5, 0.25));
    assert_eq!(r1[(2, 0)], Complex::new(-0.5, -0.25));
}

#[test]
fn network_without_nodes_has_an_empty_solution() {
    let mut params = NetworkParams::new();
    let g = params.add_node(node("G", NodeType::Ground));
    params.add_component(line("l", 1.0, 0.0, g, g));
    params.add_component(source("s", 1.0, 0.0, g, g));
    let (sim, _) = assembled(params);
    assert_eq!(sim.net_size, 0);
    assert_eq!(sim.net_matrix.nrows, 0);
    assert_eq!(sim.net_matrix.ncols, 0);
    assert!(sim.net_matrix.data.is_empty());
    assert!(sim.rhs_vector.data.is_empty());
    let never = |_: &DMatrix<Complex64>, _: &DMatrix<Complex64>| -> Option<DMatrix<Complex64>> {
        panic!("an empty system needs no solver")
    };
    let solved = sim.solve(&never).expect("empty systems are solvable");
    assert_eq!(solved.nrows, 0);
    assert_eq!(solved.ncols, 1);
    assert!(solved.data.is_empty());
}

#[test]
fn terminal_outside_the_system_is_refused_before_any_change() {
    let mut params = NetworkParams::new();
    let a = params.add_node(node("A", NodeType::Network));
    params.add_component(line("l1", 1.0, 0.0, a, GROUND));
    params.add_component(line("l2", 1.0, 0.0, a, 7));
    let mut state = NetworkState::new();
    state.generate_sim_objects(params);
    let mut sim = Simulation::new(&mut state);
    assert_eq!(
        sim.stamp(&mut state, &recip, &plus),
        Err(SimulationError::OutOfRangeNodeReference)
    );
    assert_eq!(sim.net_matrix.data[0][0], c64(0.0, 0.0));
    assert_eq!(sim.rhs_vector.data[0][0], c64(0.0, 0.0));
    match &state.comps[0] {
        ComponentType::Line(l) => assert_eq!(l.stamp.m11, c64(0.0, 0.0)),
        _ => panic!("a line was declared"),
    }
}

#[test]
fn line_of_zero_impedance_is_refused_before_any_change() {
    for (r, x) in [(0.0, 0.0), (-0.0, 0.0), (0.0, -0.0)] {
        let mut params = NetworkParams::new();
        let a = params.add_node(node("A", NodeType::Network));
        params.add_component(line("l1", 1.0, 0.0, a, GROUND));
        params.add_component(line("short", r, x, a, GROUND));
        let mut state = NetworkState::new();
        state.generate_sim_objects(params);
        let mut sim = Simulation::new(&mut state);
        assert_eq!(
            sim.stamp(&mut state, &recip, &plus),
            Err(SimulationError::DegenerateComponent)
        );
        assert_eq!(sim.net_matrix.data[0][0], c64(0.0, 0.0));
        assert!(state.comps[1].is_degenerate());
        assert!(!state.comps[0].is_degenerate());
    }
}

#[test]
fn out_of_range_is_reported_before_zero_impedance() {
    let mut params = NetworkParams::new();
    let a = params.add_node(node("A", NodeType::Network));
    params.add_component(line("short", 0.0, 0.0, a, GROUND));
    params.add_component(source("s", 1.0, 0.0, 3, a));
    let mut state = NetworkState::new();
    state.generate_sim_objects(params);
    let mut sim = Simulation::new(&mut state);
    assert_eq!(
        sim.stamp(&mut state, &recip, &plus),
        Err(SimulationError::OutOfRangeNodeReference)
    );
}

#[test]
fn reactance_alone_is_no_zero_impedance() {
    let mut params = NetworkParams::new();
    let a = params.add_node(node("A", NodeType::Network));
    params.add_component(line("l", 0.0, 2.0, a, GROUND));
    let (sim, _) = assembled(params);
    assert_eq!(to_na(sim.net_matrix.data[0][0]), Complex::new(0.0, -0.5));
}

#[test]
fn floating_node_makes_the_system_singular() {
    let mut params = NetworkParams::new();
    let a = params.add_node(node("A", NodeType::Network));
    params.add_component(source("s", 1.0, 0.0, GROUND, a));
    let (sim, _) = assembled(params);
    assert_eq!(sim.solve(&lu_solve).err(), Some(SimulationError::SingularSystem));
}

#[test]
fn network_without_ground_is_singular() {
    let mut params = NetworkParams::new();
    let a = params.add_node(node("A", NodeType::Network));
    let b = params.add_node(node("B", NodeType::Network));
    params.add_component(line("l", 1.0, 0.0, a, b));
    params.add_component(source("s", 1.0, 0.0, a, b));
    let (sim, _) = assembled(params);
    assert_eq!(sim.solve(&lu_solve).err(), Some(SimulationError::SingularSystem));
}

#[test]
fn solver_answer_of_another_shape_is_no_solution() {
    let sim: Simulation<Complex64> = Simulation::with_size(2);
    let short = DMatrix::from_rows(vec![vec![c64(1.0, 0.0)]], 1);
    assert_eq!(sim.solution_from(short).err(), Some(SimulationError::SingularSystem));
    let wide = DMatrix::from_rows(vec![vec![c64(1.0, 0.0); 2]; 2], 2);
    assert_eq!(sim.solution_from(wide).err(), Some(SimulationError::SingularSystem));
    assert_eq!(sim.solution_from(None).err(), Some(SimulationError::SingularSystem));
    let right = DMatrix::from_rows(vec![vec![c64(1.0, 0.0)], vec![c64(2.0, 0.0)]], 1);
    let solved = sim.solution_from(right).expect("a column of two entries");
    assert_eq!(solved.data[1][0], c64(2.0, 0.0));
}

#[test]
fn two_node_network_solves() {
    let mut params = NetworkParams::new();
    let g = params.add_node(node("G", NodeType::Ground));
    let a = params.add_node(node("A", NodeType::Network));
    let b = params.add_node(node("B", NodeType::Network));
    params.add_component(line("l1", 1.0, 0.0, g, a));
    params.add_component(line("l2", 1.0, 0.0, a, b));
    params.add_component(source("s", 2.0, 0.0, g, b));
    let (sim, _) = assembled(params);
    let solved = sim.solve(&lu_solve).expect("solve");
    assert_eq!(to_na(solved.data[0][0]), Complex::new(2.0, 0.0));
    assert_eq!(to_na(solved.data[1][0]), Complex::new(4.0, 0.0));
}
