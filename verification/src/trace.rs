//! A scripted, logging pass for observing the engine: it records every hook
//! call in order, and can be told, by position in that record, to stop the
//! walk, to fail, or to replace the node it is called on.  It is how the
//! engine's ordering and short-circuit behaviour is exercised from outside.
use crate::ir::{Component, ComponentV, Control, ControlV, Program};
use crate::visitor::{
    pass_spec, run_pass, Action, ActionV, Error, HookId, VisResult, Visitor,
};
use vstd::prelude::*;

verus! {

/// The scripted visitor: a log of hook calls plus up to one stop, one
/// failure and one replacement, each keyed by the position in the log at
/// which it fires.
pub struct TraceVisitor {
    /// Hook calls seen so far, in order.
    pub log: Vec<HookId>,
    /// Position in the log at which the hook signals stop.
    pub stop_at: Option<usize>,
    /// Position in the log at which the hook fails.
    pub fail_at: Option<usize>,
    /// Position in the log at which the hook asks for a replacement.
    pub replace_at: Option<usize>,
    /// The replacement subtree, handed out once.
    pub replacement: Option<Control>,
}

/// Mathematical model of a [`TraceVisitor`].
pub struct TraceVisitorV {
    pub log: Seq<HookId>,
    pub stop_at: Option<usize>,
    pub fail_at: Option<usize>,
    pub replace_at: Option<usize>,
    pub replacement: Option<ControlV>,
}

impl View for TraceVisitor {
    type V = TraceVisitorV;

    open spec fn view(&self) -> TraceVisitorV {
        TraceVisitorV {
            log: self.log@,
            stop_at: self.stop_at,
            fail_at: self.fail_at,
            replace_at: self.replace_at,
            replacement: match self.replacement {
                Some(c) => Some(c@),
                None => None,
            },
        }
    }
}

impl Default for TraceVisitor {
    /// A visitor that only logs: no stop, no failure, no replacement.
    fn default() -> (r: Self)
        ensures
            r@ == (TraceVisitorV {
                log: Seq::<HookId>::empty(),
                stop_at: None,
                fail_at: None,
                replace_at: None,
                replacement: None,
            }),
    {
        TraceVisitor {
            log: Vec::new(),
            stop_at: None,
            fail_at: None,
            replace_at: None,
            replacement: None,
        }
    }
}

/// One scripted step: the hook identity is appended to the log, and the
/// outcome is decided by where the call fell in the log — failure first,
/// then stop, then replacement (consumed when handed out), else continue.
pub open spec fn trace_step(v: TraceVisitorV, h: HookId) -> (
    TraceVisitorV,
    Result<ActionV, Error>,
) {
    let k = v.log.len();
    let logged = TraceVisitorV { log: v.log.push(h), ..v };
    if (match v.fail_at {
        Some(f) => f as nat == k,
        None => false,
    }) {
        (logged, Result::Err(Error::HookFailure))
    } else if (match v.stop_at {
        Some(s) => s as nat == k,
        None => false,
    }) {
        (logged, Result::Ok(ActionV::Stop))
    } else {
        match v.replacement {
            Some(c) => {
                if (match v.replace_at {
                    Some(p) => p as nat == k,
                    None => false,
                }) {
                    (
                        TraceVisitorV { replacement: None, ..logged },
                        Result::Ok(ActionV::Change(c)),
                    )
                } else {
                    (logged, Result::Ok(ActionV::Continue))
                }
            },
            None => (logged, Result::Ok(ActionV::Continue)),
        }
    }
}

impl TraceVisitor {
    /// Logs one hook call and answers as the script says.
    fn step(&mut self, h: HookId) -> (r: VisResult)
        ensures
            ({
                let (v2, r2) = trace_step(old(self)@, h);
                &&& final(self)@ == v2
                &&& crate::visitor::vis_view(r) == r2
            }),
    {
        let k = self.log.len();
        self.log.push(h);
        match self.fail_at {
            Some(f) => {
                if f == k {
                    return Result::Err(Error::HookFailure);
                }
            },
            None => {},
        }
        match self.stop_at {
            Some(s) => {
                if s == k {
                    return Result::Ok(Action::Stop);
                }
            },
            None => {},
        }
        let fire = match self.replace_at {
            Some(p) => p == k,
            None => false,
        };
        if fire {
            match self.replacement.take() {
                Some(c) => {
                    return Result::Ok(Action::Change(c));
                },
                None => {},
            }
        }
        Result::Ok(Action::Continue)
    }

    /// Runs the scripted visitor over every component of the program.
    pub fn do_pass(&mut self, prog: &mut Program) -> (r: Result<(), Error>)
        ensures
            ({
                let (v2, cs2, r2) = pass_spec::<TraceVisitor>(old(self)@, old(prog)@.components);
                &&& final(self)@ == v2
                &&& final(prog)@.components == cs2
                &&& final(prog)@.debug_mode == old(prog)@.debug_mode
                &&& r == r2
            }),
    {
        run_pass(self, prog)
    }

    /// Convenience entry point: a fresh, purely logging visitor run once
    /// over the program, handed back on success.
    pub fn do_pass_default(prog: &mut Program) -> (r: Result<TraceVisitor, Error>)
        ensures
            ({
                let v0 = TraceVisitorV {
                    log: Seq::empty(),
                    stop_at: None,
                    fail_at: None,
                    replace_at: None,
                    replacement: None,
                };
                let (v2, cs2, r2) = pass_spec::<TraceVisitor>(v0, old(prog)@.components);
                &&& final(prog)@.components == cs2
                &&& final(prog)@.debug_mode == old(prog)@.debug_mode
                &&& (r matches Result::Ok(tv) ==> tv@ == v2 && r2 is Ok)
                &&& (r matches Result::Err(e) ==> r2 == Result::<(), Error>::Err(e))
            }),
    {
        let mut visitor = TraceVisitor::default();
        match visitor.do_pass(prog) {
            Result::Ok(()) => Result::Ok(visitor),
            Result::Err(e) => Result::Err(e),
        }
    }
}

impl Visitor for TraceVisitor {
    fn name(&self) -> (r: String)
        ensures
            r@ == "trace"@,
    {
        "trace".to_string()
    }

    /// Every node-level hook logs itself and answers per the script; the
    /// component is never touched.
    open spec fn on_hook(v: TraceVisitorV, h: HookId, node: ControlV, comp: ComponentV) -> (
        TraceVisitorV,
        ComponentV,
        Result<ActionV, Error>,
    ) {
        let (v2, r2) = trace_step(v, h);
        (v2, comp, r2)
    }

    open spec fn on_start(v: TraceVisitorV, comp: ComponentV) -> (
        TraceVisitorV,
        ComponentV,
        Result<ActionV, Error>,
    ) {
        let (v2, r2) = trace_step(v, HookId::CompStart);
        (v2, comp, r2)
    }

    open spec fn on_finish(v: TraceVisitorV, comp: ComponentV) -> (
        TraceVisitorV,
        ComponentV,
        Result<ActionV, Error>,
    ) {
        let (v2, r2) = trace_step(v, HookId::CompFinish);
        (v2, comp, r2)
    }

    fn start(&mut self, comp: &mut Component) -> (r: VisResult) {
        self.step(HookId::CompStart)
    }

    fn finish(&mut self, comp: &mut Component) -> (r: VisResult) {
        self.step(HookId::CompFinish)
    }

    fn start_seq(&mut self, node: &Control, comp: &mut Component) -> (r: VisResult) {
        self.step(HookId::StartSeq)
    }

    fn finish_seq(&mut self, node: &Control, comp: &mut Component) -> (r: VisResult) {
        self.step(HookId::FinishSeq)
    }

    fn start_par(&mut self, node: &Control, comp: &mut Component) -> (r: VisResult) {
        self.step(HookId::StartPar)
    }

    fn finish_par(&mut self, node: &Control, comp: &mut Component) -> (r: VisResult) {
        self.step(HookId::FinishPar)
    }

    fn start_if(&mut self, node: &Control, comp: &mut Component) -> (r: VisResult) {
        self.step(HookId::StartIf)
    }

    fn finish_if(&mut self, node: &Control, comp: &mut Component) -> (r: VisResult) {
        self.step(HookId::FinishIf)
    }

    fn start_ifen(&mut self, node: &Control, comp: &mut Component) -> (r: VisResult) {
        self.step(HookId::StartIfen)
    }

    fn finish_ifen(&mut self, node: &Control, comp: &mut Component) -> (r: VisResult) {
        self.step(HookId::FinishIfen)
    }

    fn start_while(&mut self, node: &Control, comp: &mut Component) -> (r: VisResult) {
        self.step(HookId::StartWhile)
    }

    fn finish_while(&mut self, node: &Control, comp: &mut Component) -> (r: VisResult) {
        self.step(HookId::FinishWhile)
    }

    fn start_print(&mut self, node: &Control, comp: &mut Component) -> (r: VisResult) {
        self.step(HookId::StartPrint)
    }

    fn finish_print(&mut self, node: &Control, comp: &mut Component) -> (r: VisResult) {
        self.step(HookId::FinishPrint)
    }

    fn start_enable(&mut self, node: &Control, comp: &mut Component) -> (r: VisResult) {
        self.step(HookId::StartEnable)
    }

    fn finish_enable(&mut self, node: &Control, comp: &mut Component) -> (r: VisResult) {
        self.step(HookId::FinishEnable)
    }

    fn start_disable(&mut self, node: &Control, comp: &mut Component) -> (r: VisResult) {
        self.step(HookId::StartDisable)
    }

    fn finish_disable(&mut self, node: &Control, comp: &mut Component) -> (r: VisResult) {
        self.step(HookId::FinishDisable)
    }

    fn start_empty(&mut self, node: &Control, comp: &mut Component) -> (r: VisResult) {
        self.step(HookId::StartEmpty)
    }

    fn finish_empty(&mut self, node: &Control, comp: &mut Component) -> (r: VisResult) {
        self.step(HookId::FinishEmpty)
    }
}

} // verus!
