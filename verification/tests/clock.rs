use calyx_passes::clk_insertion::ClkInsertion;
use calyx_passes::ir::{
    Assignment, Cell, Component, Control, Direction, Guard, Port, PortRef, Program,
};

fn port(name: &str, width: u64, direction: Direction, clock: bool) -> Port {
    Port { name: name.to_string(), width, direction, clock }
}

fn component(name: &str, signature: Vec<Port>, cells: Vec<Cell>) -> Component {
    Component {
        name: name.to_string(),
        signature,
        cells,
        continuous_assignments: Vec::new(),
        control: Control::Empty,
    }
}

fn clocked_component() -> Component {
    component(
        "main",
        vec![
            port("in", 8, Direction::Input, false),
            port("out", 8, Direction::Output, false),
            port("clk", 1, Direction::Input, true),
        ],
        vec![
            Cell { name: "a".to_string(), ports: vec![port("clk", 1, Direction::Input, true)] },
            Cell { name: "b".to_string(), ports: vec![port("d", 8, Direction::Input, false)] },
        ],
    )
}

#[test]
fn wires_clock_into_cell_with_clock_port() {
    let mut prog = Program { components: vec![clocked_component()], debug_mode: false };
    let mut pass = ClkInsertion {};
    let r = pass.do_pass(&mut prog);
    assert!(r.is_ok());
    let comp = &prog.components[0];
    assert_eq!(
        comp.continuous_assignments,
        vec![Assignment {
            dst: PortRef::Cell { cell: 0, port: 0 },
            src: PortRef::Signature { port: 2 },
            guard: Guard::True,
        }]
    );
}

#[test]
fn no_signature_clock_adds_nothing_and_does_not_fail() {
    let comp = component(
        "main",
        vec![port("in", 8, Direction::Input, false)],
        vec![
            Cell { name: "a".to_string(), ports: vec![port("clk", 1, Direction::Input, true)] },
            Cell { name: "b".to_string(), ports: vec![port("clk", 1, Direction::Input, true)] },
        ],
    );
    let mut prog = Program { components: vec![comp], debug_mode: false };
    let r = ClkInsertion::do_pass_default(&mut prog);
    assert!(r.is_ok());
    assert_eq!(prog.components[0].continuous_assignments, vec![]);
}

#[test]
fn cell_without_clock_port_gets_no_wire() {
    let comp = component(
        "main",
        vec![port("clk", 1, Direction::Input, true)],
        vec![Cell { name: "b".to_string(), ports: vec![port("d", 8, Direction::Input, false)] }],
    );
    let mut prog = Program { components: vec![comp], debug_mode: false };
    let mut pass = ClkInsertion {};
    assert!(pass.do_pass(&mut prog).is_ok());
    assert_eq!(prog.components[0].continuous_assignments, vec![]);
}

#[test]
fn running_the_pass_twice_doubles_the_wires() {
    let mut prog = Program { components: vec![clocked_component()], debug_mode: false };
    let mut pass = ClkInsertion {};
    assert!(pass.do_pass(&mut prog).is_ok());
    assert!(pass.do_pass(&mut prog).is_ok());
    let wire = Assignment {
        dst: PortRef::Cell { cell: 0, port: 0 },
        src: PortRef::Signature { port: 2 },
        guard: Guard::True,
    };
    assert_eq!(prog.components[0].continuous_assignments, vec![wire, wire]);
}

#[test]
fn every_component_of_the_program_is_wired() {
    let mut prog = Program {
        components: vec![clocked_component(), clocked_component()],
        debug_mode: false,
    };
    let mut pass = ClkInsertion {};
    assert!(pass.do_pass(&mut prog).is_ok());
    for comp in &prog.components {
        assert_eq!(comp.continuous_assignments.len(), 1);
    }
}

#[test]
fn find_clock_returns_first_clock_tagged_port() {
    let ports = vec![
        port("in", 8, Direction::Input, false),
        port("clk", 1, Direction::Input, true),
    ];
    assert_eq!(calyx_passes::ir::find_clock(&ports), Some(1));
    let bare = vec![port("in", 8, Direction::Input, false)];
    assert_eq!(calyx_passes::ir::find_clock(&bare), None);
}

#[test]
fn builder_records_cells_and_continuous_assignments() {
    let mut comp = component("main", vec![port("clk", 1, Direction::Input, true)], vec![]);
    comp.add_cell(Cell {
        name: "a".to_string(),
        ports: vec![port("clk", 1, Direction::Input, true)],
    });
    assert_eq!(comp.cells.len(), 1);
    assert_eq!(comp.cells[0].name, "a");
    comp.add_continuous_assignment(
        PortRef::Cell { cell: 0, port: 0 },
        PortRef::Signature { port: 0 },
        Guard::True,
    );
    assert_eq!(
        comp.continuous_assignments,
        vec![Assignment {
            dst: PortRef::Cell { cell: 0, port: 0 },
            src: PortRef::Signature { port: 0 },
            guard: Guard::True,
        }]
    );
}
