//! The clock-wiring pass: wires a component's own clock-tagged signature
//! port into the clock-tagged port of every cell that has one.
//!
//! The pass needs no control-tree traversal, so its component-level start
//! hook does all the work and then signals stop — a deliberate use of stop
//! to skip irrelevant walking, not an error.  It performs no existence
//! check before inserting a wire, so running it twice doubles the wires;
//! [`lemma_clock_wiring_doubles`] states that policy.
use crate::ir::{
    assignment_wf, component_wf, first_clock, lemma_first_clock_range, Assignment, CellV,
    Component, ComponentV, Control, ControlV, Guard, PortRef, Program,
};
use crate::visitor::{run_pass, Action, ActionV, Error, HookId, VisResult, Visitor};
use vstd::prelude::*;

verus! {

/// The clock wires owed to the first `n` cells, given the position
/// `sig_clk` of the component's clock port: one continuous assignment from
/// the signature clock into each cell's clock port, in cell order.
pub open spec fn wires_upto(cells: Seq<CellV>, sig_clk: int, n: int) -> Seq<Assignment>
    decreases n,
{
    if n <= 0 {
        Seq::empty()
    } else {
        let prev = wires_upto(cells, sig_clk, n - 1);
        match first_clock(cells[n - 1].ports) {
            Some(p) => prev.push(
                Assignment {
                    dst: PortRef::Cell { cell: (n - 1) as usize, port: p as usize },
                    src: PortRef::Signature { port: sig_clk as usize },
                    guard: Guard::True,
                },
            ),
            None => prev,
        }
    }
}

/// Every wire the clock-wiring pass adds to a component: none when the
/// signature has no clock-tagged port, else one per cell that has one.
pub open spec fn clock_wires(comp: ComponentV) -> Seq<Assignment> {
    match first_clock(comp.signature) {
        None => Seq::empty(),
        Some(k) => wires_upto(comp.cells, k, comp.cells.len() as int),
    }
}

/// Adds assignments from a component's clock port to every owned cell that
/// has an input clock port of its own.
pub struct ClkInsertion {}

impl Default for ClkInsertion {
    fn default() -> (r: Self)
        ensures
            r == (ClkInsertion {  }),
    {
        ClkInsertion {  }
    }
}

impl View for ClkInsertion {
    type V = ();

    open spec fn view(&self) -> () {
        ()
    }
}

impl Visitor for ClkInsertion {
    fn name(&self) -> (r: String)
        ensures
            r@ == "clk-insertion"@,
    {
        "clk-insertion".to_string()
    }

    /// Every node-level hook is a no-op: the pass never walks the tree.
    open spec fn on_hook(v: (), h: HookId, node: ControlV, comp: ComponentV) -> (
        (),
        ComponentV,
        Result<ActionV, Error>,
    ) {
        (v, comp, Result::Ok(ActionV::Continue))
    }

    /// The whole pass: append the owed clock wires, then stop the walk.
    open spec fn on_start(v: (), comp: ComponentV) -> ((), ComponentV, Result<ActionV, Error>) {
        (
            v,
            ComponentV {
                continuous_assignments: comp.continuous_assignments + clock_wires(comp),
                ..comp
            },
            Result::Ok(ActionV::Stop),
        )
    }

    open spec fn on_finish(v: (), comp: ComponentV) -> ((), ComponentV, Result<ActionV, Error>) {
        (v, comp, Result::Ok(ActionV::Continue))
    }

    #[verifier::loop_isolation(false)]
    fn start(&mut self, comp: &mut Component) -> (r: VisResult) {
        let sig_clk = match crate::ir::find_clock(&comp.signature) {
            Some(k) => k,
            None => {
                proof {
                    assert(clock_wires(old(comp)@) =~= Seq::<Assignment>::empty());
                    assert(old(comp)@.continuous_assignments + clock_wires(old(comp)@)
                        =~= old(comp)@.continuous_assignments);
                }
                return Result::Ok(Action::Stop);
            },
        };
        let ghost c0 = old(comp)@;
        let mut i: usize = 0;
        while i < comp.cells.len()
            invariant
                i <= comp.cells@.len(),
                comp@.name == c0.name,
                comp@.signature == c0.signature,
                comp@.cells == c0.cells,
                comp@.control == c0.control,
                first_clock(c0.signature) == Some(sig_clk as int),
                comp@.continuous_assignments == c0.continuous_assignments + wires_upto(
                    c0.cells,
                    sig_clk as int,
                    i as int,
                ),
            decreases comp.cells@.len() - i,
        {
            match crate::ir::find_clock(&comp.cells[i].ports) {
                Some(p) => {
                    comp.add_continuous_assignment(
                        PortRef::Cell { cell: i, port: p },
                        PortRef::Signature { port: sig_clk },
                        Guard::True,
                    );
                    proof {
                        let a = Assignment {
                            dst: PortRef::Cell { cell: i, port: p },
                            src: PortRef::Signature { port: sig_clk },
                            guard: Guard::True,
                        };
                        assert(c0.cells[i as int] == comp@.cells[i as int]);
                        assert((c0.continuous_assignments + wires_upto(
                            c0.cells,
                            sig_clk as int,
                            i as int,
                        )).push(a) =~= c0.continuous_assignments + wires_upto(
                            c0.cells,
                            sig_clk as int,
                            i as int,
                        ).push(a));
                        assert(wires_upto(c0.cells, sig_clk as int, i + 1) == wires_upto(
                            c0.cells,
                            sig_clk as int,
                            i as int,
                        ).push(a));
                    }
                },
                None => {
                    proof {
                        assert(c0.cells[i as int] == comp@.cells[i as int]);
                        assert(wires_upto(c0.cells, sig_clk as int, i + 1) == wires_upto(
                            c0.cells,
                            sig_clk as int,
                            i as int,
                        ));
                    }
                },
            }
            i = i + 1;
        }
        proof {
            assert(clock_wires(c0) == wires_upto(c0.cells, sig_clk as int, c0.cells.len() as int));
        }
        Result::Ok(Action::Stop)
    }

    fn finish(&mut self, comp: &mut Component) -> (r: VisResult) {
        Result::Ok(Action::Continue)
    }

    fn start_seq(&mut self, node: &Control, comp: &mut Component) -> (r: VisResult) {
        Result::Ok(Action::Continue)
    }

    fn finish_seq(&mut self, node: &Control, comp: &mut Component) -> (r: VisResult) {
        Result::Ok(Action::Continue)
    }

    fn start_par(&mut self, node: &Control, comp: &mut Component) -> (r: VisResult) {
        Result::Ok(Action::Continue)
    }

    fn finish_par(&mut self, node: &Control, comp: &mut Component) -> (r: VisResult) {
        Result::Ok(Action::Continue)
    }

    fn start_if(&mut self, node: &Control, comp: &mut Component) -> (r: VisResult) {
        Result::Ok(Action::Continue)
    }

    fn finish_if(&mut self, node: &Control, comp: &mut Component) -> (r: VisResult) {
        Result::Ok(Action::Continue)
    }

    fn start_ifen(&mut self, node: &Control, comp: &mut Component) -> (r: VisResult) {
        Result::Ok(Action::Continue)
    }

    fn finish_ifen(&mut self, node: &Control, comp: &mut Component) -> (r: VisResult) {
        Result::Ok(Action::Continue)
    }

    fn start_while(&mut self, node: &Control, comp: &mut Component) -> (r: VisResult) {
        Result::Ok(Action::Continue)
    }

    fn finish_while(&mut self, node: &Control, comp: &mut Component) -> (r: VisResult) {
        Result::Ok(Action::Continue)
    }

    fn start_print(&mut self, node: &Control, comp: &mut Component) -> (r: VisResult) {
        Result::Ok(Action::Continue)
    }

    fn finish_print(&mut self, node: &Control, comp: &mut Component) -> (r: VisResult) {
        Result::Ok(Action::Continue)
    }

    fn start_enable(&mut self, node: &Control, comp: &mut Component) -> (r: VisResult) {
        Result::Ok(Action::Continue)
    }

    fn finish_enable(&mut self, node: &Control, comp: &mut Component) -> (r: VisResult) {
        Result::Ok(Action::Continue)
    }

    fn start_disable(&mut self, node: &Control, comp: &mut Component) -> (r: VisResult) {
        Result::Ok(Action::Continue)
    }

    fn finish_disable(&mut self, node: &Control, comp: &mut Component) -> (r: VisResult) {
        Result::Ok(Action::Continue)
    }

    fn start_empty(&mut self, node: &Control, comp: &mut Component) -> (r: VisResult) {
        Result::Ok(Action::Continue)
    }

    fn finish_empty(&mut self, node: &Control, comp: &mut Component) -> (r: VisResult) {
        Result::Ok(Action::Continue)
    }
}

impl ClkInsertion {
    /// What the pass does, in a sentence, for diagnostics.
    pub fn description(&self) -> (r: String)
        ensures
            r@ == "inserts assignments from component clk to sub-component clk"@,
    {
        "inserts assignments from component clk to sub-component clk".to_string()
    }

    /// Runs the clock-wiring pass over every component of the program, in
    /// the program's natural order.  The diagnostic dump that a debug-mode
    /// run asks for is left to the caller, after this returns.
    pub fn do_pass(&mut self, prog: &mut Program) -> (r: Result<(), Error>)
        ensures
            ({
                let (v2, cs2, r2) = crate::visitor::pass_spec::<ClkInsertion>(
                    old(self)@,
                    old(prog)@.components,
                );
                &&& final(prog)@.components == cs2
                &&& final(prog)@.debug_mode == old(prog)@.debug_mode
                &&& r == r2
            }),
    {
        run_pass(self, prog)
    }

    /// Convenience entry point: default-constructs the pass and runs it
    /// once over the program, handing the visitor back on success.
    pub fn do_pass_default(prog: &mut Program) -> (r: Result<ClkInsertion, Error>)
        ensures
            ({
                let (v2, cs2, r2) = crate::visitor::pass_spec::<ClkInsertion>(
                    (),
                    old(prog)@.components,
                );
                &&& final(prog)@.components == cs2
                &&& final(prog)@.debug_mode == old(prog)@.debug_mode
                &&& (r matches Result::Ok(_)) == (r2 matches Result::Ok(_))
                &&& (r matches Result::Err(e) ==> r2 == Result::<(), Error>::Err(e))
            }),
    {
        let mut visitor = ClkInsertion::default();
        match visitor.do_pass(prog) {
            Result::Ok(()) => Result::Ok(visitor),
            Result::Err(e) => Result::Err(e),
        }
    }
}

/// Every wire owed to the first `n` cells resolves inside the component:
/// its destination names an existing clock port of an existing cell, its
/// source the given signature port.
proof fn lemma_wires_upto_wf(c: ComponentV, k: int, n: int)
    requires
        0 <= k < c.signature.len(),
        0 <= n <= c.cells.len(),
        c.signature.len() <= usize::MAX,
        c.cells.len() <= usize::MAX,
        forall|i: int| 0 <= i < c.cells.len() ==> (#[trigger] c.cells[i].ports).len() <= usize::MAX,
    ensures
        forall|j: int|
            0 <= j < wires_upto(c.cells, k, n).len() ==> assignment_wf(
                c,
                #[trigger] wires_upto(c.cells, k, n)[j],
            ),
    decreases n,
{
    if n > 0 {
        lemma_wires_upto_wf(c, k, n - 1);
        lemma_first_clock_range(c.cells[n - 1].ports, 0);
        let prev = wires_upto(c.cells, k, n - 1);
        let cur = wires_upto(c.cells, k, n);
        assert forall|j: int| 0 <= j < cur.len() implies assignment_wf(
            c,
            #[trigger] cur[j],
        ) by {
            match first_clock(c.cells[n - 1].ports) {
                Some(p) => {
                    if j < prev.len() {
                        assert(cur[j] == prev[j]);
                        assert(assignment_wf(c, prev[j]));
                    } else {
                        assert(cur[j] == Assignment {
                            dst: PortRef::Cell { cell: (n - 1) as usize, port: p as usize },
                            src: PortRef::Signature { port: k as usize },
                            guard: Guard::True,
                        });
                        assert(((n - 1) as usize) as int == n - 1);
                        assert((p as usize) as int == p);
                        assert((k as usize) as int == k);
                    }
                },
                None => {
                    assert(cur[j] == prev[j]);
                    assert(assignment_wf(c, prev[j]));
                },
            }
        }
    }
}

/// The clock-wiring pass preserves well-formedness: the clock uniqueness
/// of signature and cells is untouched, and every wire it adds references
/// only ports belonging to the component it is added to.
pub proof fn lemma_clock_wiring_preserves_wf(comp: ComponentV)
    requires
        component_wf(comp),
        comp.signature.len() <= usize::MAX,
        comp.cells.len() <= usize::MAX,
        forall|i: int|
            0 <= i < comp.cells.len() ==> (#[trigger] comp.cells[i].ports).len() <= usize::MAX,
    ensures
        ({
            let (v1, c1, r1) = <ClkInsertion as Visitor>::on_start((), comp);
            component_wf(c1)
        }),
{
    let (v1, c1, r1) = <ClkInsertion as Visitor>::on_start((), comp);
    match first_clock(comp.signature) {
        None => {
            assert(clock_wires(comp) =~= Seq::<Assignment>::empty());
        },
        Some(k) => {
            lemma_first_clock_range(comp.signature, 0);
            lemma_wires_upto_wf(comp, k, comp.cells.len() as int);
        },
    }
    assert forall|i: int|
        0 <= i < c1.continuous_assignments.len() implies assignment_wf(
        c1,
        #[trigger] c1.continuous_assignments[i],
    ) by {
        if i < comp.continuous_assignments.len() {
            assert(c1.continuous_assignments[i] == comp.continuous_assignments[i]);
            assert(assignment_wf(comp, comp.continuous_assignments[i]));
        } else {
            assert(c1.continuous_assignments[i] == clock_wires(comp)[i
                - comp.continuous_assignments.len()]);
        }
    }
}

/// Idempotence policy of the clock-wiring pass: it performs no existence
/// check before inserting a wire, so a second run over the same component
/// appends the very same wires again — the assignments double rather than
/// stay put.
pub proof fn lemma_clock_wiring_doubles(comp: ComponentV)
    ensures
        ({
            let (v1, c1, r1) = <ClkInsertion as Visitor>::on_start((), comp);
            let (v2, c2, r2) = <ClkInsertion as Visitor>::on_start(v1, c1);
            &&& clock_wires(c1) == clock_wires(comp)
            &&& c2.continuous_assignments == comp.continuous_assignments + clock_wires(comp)
                + clock_wires(comp)
        }),
{
}

} // verus!
