use calyx_passes::ir::{Cell, Component, Control, Guard, Program};
use calyx_passes::trace::TraceVisitor;
use calyx_passes::visitor::{Action, Error, HookId, Visitable};

fn enable(group: &str) -> Control {
    Control::Enable { group: group.to_string() }
}

fn empty_component() -> Component {
    Component {
        name: "main".to_string(),
        signature: Vec::new(),
        cells: Vec::<Cell>::new(),
        continuous_assignments: Vec::new(),
        control: Control::Empty,
    }
}

fn logger() -> TraceVisitor {
    TraceVisitor {
        log: Vec::new(),
        stop_at: None,
        fail_at: None,
        replace_at: None,
        replacement: None,
    }
}

#[test]
fn full_walk_calls_start_hooks_down_and_finish_hooks_up() {
    let control = Control::Sequence { stmts: vec![enable("a"), enable("b")] };
    let mut tv = logger();
    let mut comp = empty_component();
    let (_, r) = control.visit(&mut tv, &mut comp);
    assert!(matches!(r, Ok(Action::Continue)));
    assert_eq!(
        tv.log,
        vec![
            HookId::StartSeq,
            HookId::StartEnable,
            HookId::FinishEnable,
            HookId::StartEnable,
            HookId::FinishEnable,
            HookId::FinishSeq,
        ]
    );
}

#[test]
fn stop_in_second_enable_skips_the_rest_of_the_sequence() {
    let control = Control::Sequence { stmts: vec![enable("a"), enable("b"), enable("c")] };
    let mut tv = logger();
    // positions: 0 start_seq, 1 start_enable(a), 2 finish_enable(a),
    // 3 start_enable(b) — the stop fires there
    tv.stop_at = Some(3);
    let mut comp = empty_component();
    let (_, r) = control.visit(&mut tv, &mut comp);
    assert!(matches!(r, Ok(Action::Stop)));
    assert_eq!(
        tv.log,
        vec![HookId::StartSeq, HookId::StartEnable, HookId::FinishEnable, HookId::StartEnable]
    );
}

#[test]
fn if_condition_branches_are_walked_true_then_false() {
    let control = Control::If {
        cond: Guard::True,
        tbranch: Box::new(enable("t")),
        fbranch: Box::new(enable("f")),
    };
    let mut tv = logger();
    let mut comp = empty_component();
    let (_, r) = control.visit(&mut tv, &mut comp);
    assert!(matches!(r, Ok(Action::Continue)));
    assert_eq!(
        tv.log,
        vec![
            HookId::StartIf,
            HookId::StartEnable,
            HookId::FinishEnable,
            HookId::StartEnable,
            HookId::FinishEnable,
            HookId::FinishIf,
        ]
    );
}

#[test]
fn failure_inside_nested_if_skips_later_siblings_and_finish_hooks() {
    let control = Control::Sequence {
        stmts: vec![
            enable("a"),
            Control::If {
                cond: Guard::True,
                tbranch: Box::new(enable("t")),
                fbranch: Box::new(enable("f")),
            },
            enable("z"),
        ],
    };
    let mut tv = logger();
    // positions: 0 start_seq, 1 start_enable(a), 2 finish_enable(a),
    // 3 start_if, 4 start_enable(t) — the failure fires there
    tv.fail_at = Some(4);
    let mut comp = empty_component();
    let (_, r) = control.visit(&mut tv, &mut comp);
    assert!(matches!(r, Err(Error::HookFailure)));
    assert_eq!(
        tv.log,
        vec![
            HookId::StartSeq,
            HookId::StartEnable,
            HookId::FinishEnable,
            HookId::StartIf,
            HookId::StartEnable,
        ]
    );
}

#[test]
fn failure_surfaces_unchanged_through_the_pass_driver() {
    let mut comp = empty_component();
    comp.control = Control::Sequence {
        stmts: vec![
            enable("a"),
            Control::If {
                cond: Guard::True,
                tbranch: Box::new(enable("t")),
                fbranch: Box::new(enable("f")),
            },
            enable("z"),
        ],
    };
    let mut prog = Program { components: vec![comp], debug_mode: false };
    let mut tv = logger();
    // one more position than the bare walk: 0 is the component start hook
    tv.fail_at = Some(5);
    let r = tv.do_pass(&mut prog);
    assert_eq!(r, Err(Error::HookFailure));
    // the component finish hook never ran
    assert!(!tv.log.contains(&HookId::CompFinish));
    assert!(!tv.log.contains(&HookId::FinishSeq));
}

#[test]
fn replace_rewrites_exactly_its_own_position() {
    let control = Control::Sequence { stmts: vec![enable("a"), enable("b"), enable("c")] };
    let mut tv = logger();
    // the start hook of enable(b), at position 3, asks for a replacement
    tv.replace_at = Some(3);
    tv.replacement = Some(Control::Empty);
    let mut comp = empty_component();
    let (rewritten, r) = control.visit(&mut tv, &mut comp);
    // the replacement is consumed where it occurs: the parent sees continue
    assert!(matches!(r, Ok(Action::Continue)));
    match rewritten {
        Control::Sequence { stmts } => {
            assert_eq!(stmts.len(), 3);
            assert!(matches!(&stmts[0], Control::Enable { group } if group == "a"));
            assert!(matches!(&stmts[1], Control::Empty));
            assert!(matches!(&stmts[2], Control::Enable { group } if group == "c"));
        },
        _ => panic!("the sequence node itself must survive"),
    }
    // the walk went on past the replacement, to the third child
    assert_eq!(
        tv.log,
        vec![
            HookId::StartSeq,
            HookId::StartEnable,
            HookId::FinishEnable,
            HookId::StartEnable,
            HookId::StartEnable,
            HookId::FinishEnable,
            HookId::FinishSeq,
        ]
    );
}

#[test]
fn driver_brackets_the_walk_with_component_hooks() {
    let mut comp = empty_component();
    comp.control = enable("a");
    let mut prog = Program { components: vec![comp], debug_mode: true };
    let r = TraceVisitor::do_pass_default(&mut prog);
    let tv = r.expect("a pure logging pass never fails");
    assert_eq!(
        tv.log,
        vec![
            HookId::CompStart,
            HookId::StartEnable,
            HookId::FinishEnable,
            HookId::CompFinish,
        ]
    );
    assert!(prog.debug_mode);
}

#[test]
fn and_then_advances_only_on_continue() {
    let next: Result<Action, Error> = Ok(Action::Stop);
    assert!(matches!(Action::Continue.and_then(next), Ok(Action::Stop)));
    let next: Result<Action, Error> = Ok(Action::Continue);
    assert!(matches!(Action::Stop.and_then(next), Ok(Action::Stop)));
    let next: Result<Action, Error> = Err(Error::HookFailure);
    assert!(matches!(Action::Stop.and_then(next), Ok(Action::Stop)));
}

#[test]
fn apply_change_swaps_the_node_and_reports_continue() {
    let mut node = enable("a");
    let r = Action::Change(Control::Empty).apply_change(&mut node);
    assert!(matches!(r, Ok(Action::Continue)));
    assert!(matches!(node, Control::Empty));

    let mut node = enable("a");
    let r = Action::Stop.apply_change(&mut node);
    assert!(matches!(r, Ok(Action::Stop)));
    assert!(matches!(&node, Control::Enable { group } if group == "a"));
}

#[test]
fn while_and_par_nodes_walk_their_children() {
    let control = Control::Par {
        stmts: vec![Control::While { cond: Guard::True, body: Box::new(enable("w")) }],
    };
    let mut tv = logger();
    let mut comp = empty_component();
    let (_, r) = control.visit(&mut tv, &mut comp);
    assert!(matches!(r, Ok(Action::Continue)));
    assert_eq!(
        tv.log,
        vec![
            HookId::StartPar,
            HookId::StartWhile,
            HookId::StartEnable,
            HookId::FinishEnable,
            HookId::FinishWhile,
            HookId::FinishPar,
        ]
    );
}

#[test]
fn a_bare_vector_of_nodes_is_visitable_in_order() {
    let nodes: Vec<Control> = vec![enable("a"), enable("b")];
    let mut tv = logger();
    let mut comp = empty_component();
    let (nodes2, r) = nodes.visit(&mut tv, &mut comp);
    assert!(matches!(r, Ok(Action::Continue)));
    assert_eq!(nodes2.len(), 2);
    assert_eq!(
        tv.log,
        vec![HookId::StartEnable, HookId::FinishEnable, HookId::StartEnable, HookId::FinishEnable]
    );
}

#[test]
fn every_leaf_kind_gets_its_own_hook_pair() {
    let control = Control::Ifen {
        cond: Guard::True,
        tbranch: Box::new(Control::Print),
        fbranch: Box::new(Control::Sequence {
            stmts: vec![Control::Disable { group: "g".to_string() }, Control::Empty],
        }),
    };
    let mut tv = logger();
    let mut comp = empty_component();
    let (_, r) = control.visit(&mut tv, &mut comp);
    assert!(matches!(r, Ok(Action::Continue)));
    assert_eq!(
        tv.log,
        vec![
            HookId::StartIfen,
            HookId::StartPrint,
            HookId::FinishPrint,
            HookId::StartSeq,
            HookId::StartDisable,
            HookId::FinishDisable,
            HookId::StartEmpty,
            HookId::FinishEmpty,
            HookId::FinishSeq,
            HookId::FinishIfen,
        ]
    );
}
