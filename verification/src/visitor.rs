//! The traversal engine: hook outcomes, the [`Visitor`] capability with a
//! start and finish hook per control-node kind, the [`Visitable`] walk over a
//! control tree, and the pass driver that runs one visitor over a program.
//!
//! The whole engine is specified against a spec-level interpreter:
//! [`visit_spec`] for one node, [`children_spec`] for an ordered sequence of
//! children and [`pass_spec`] for a whole program.  Every visitor supplies
//! spec-level models of its hooks ([`Visitor::on_hook`], [`Visitor::on_start`],
//! [`Visitor::on_finish`]), and the engine's contracts state that the walk
//! performs exactly what the interpreter says.
use crate::ir::{Component, ComponentV, Control, ControlV, Program};
use vstd::prelude::*;

verus! {

broadcast use crate::ir::lemma_controls_view;

/// Why a pass aborted.
#[derive(Clone, Copy, PartialEq, Eq, Structural, Debug)]
pub enum Error {
    /// A hook or a visit observed a structurally invalid node.
    MalformedTree,
    /// A pass-specific precondition was violated inside a hook.
    HookFailure,
    /// A diagnostic dump could not be written; prior mutations stand.
    IOFailure,
}

/// The tri-state outcome of a hook.
pub enum Action {
    /// Proceed with the traversal.
    Continue,
    /// Abort the remaining traversal of this component.
    Stop,
    /// Replace the current node; the traversal of this branch ends and the
    /// replacement is reported upward as [`Action::Continue`].
    Change(Control),
}

/// Mathematical model of an [`Action`].
pub enum ActionV {
    Continue,
    Stop,
    Change(ControlV),
}

impl View for Action {
    type V = ActionV;

    open spec fn view(&self) -> ActionV {
        match self {
            Action::Continue => ActionV::Continue,
            Action::Stop => ActionV::Stop,
            Action::Change(c) => ActionV::Change(c@),
        }
    }
}

/// What a hook or a visit returns: an action, or the error that aborts the
/// pass.
pub type VisResult = Result<Action, Error>;

/// Model of a [`VisResult`].
pub open spec fn vis_view(r: VisResult) -> Result<ActionV, Error> {
    match r {
        Result::Ok(a) => Result::Ok(a@),
        Result::Err(e) => Result::Err(e),
    }
}

impl Action {
    /// Sequences two traversal steps: a previous [`Action::Continue`]
    /// advances to the next step's outcome, anything else passes through.
    pub fn and_then(self, next: VisResult) -> (r: VisResult)
        ensures
            r == (match self {
                Action::Continue => next,
                _ => Result::<Action, Error>::Ok(self),
            }),
    {
        match self {
            Action::Continue => next,
            x => Result::Ok(x),
        }
    }

    /// Applies a replacement: a [`Action::Change`] writes its subtree over
    /// `con` and is consumed, surfacing as [`Action::Continue`]; any other
    /// action leaves `con` alone and passes through.
    pub fn apply_change(self, con: &mut Control) -> (r: VisResult)
        ensures
            match self {
                Action::Change(c) => *final(con) == c && r == Result::<Action, Error>::Ok(
                    Action::Continue,
                ),
                _ => *final(con) == *old(con) && r == Result::<Action, Error>::Ok(self),
            },
    {
        match self {
            Action::Change(c) => {
                *con = c;
                Result::Ok(Action::Continue)
            },
            x => Result::Ok(x),
        }
    }
}

/// Identity of a hook: the phase (start or finish) and the node kind it is
/// called for, plus the two component-level hooks.
#[derive(Clone, Copy, PartialEq, Eq, Structural, Debug)]
pub enum HookId {
    StartSeq,
    FinishSeq,
    StartPar,
    FinishPar,
    StartIf,
    FinishIf,
    StartIfen,
    FinishIfen,
    StartWhile,
    FinishWhile,
    StartPrint,
    FinishPrint,
    StartEnable,
    FinishEnable,
    StartDisable,
    FinishDisable,
    StartEmpty,
    FinishEmpty,
    CompStart,
    CompFinish,
}

/// The start hook that the engine calls for a node of this kind.
pub open spec fn start_id(c: ControlV) -> HookId {
    match c {
        ControlV::Sequence { .. } => HookId::StartSeq,
        ControlV::Par { .. } => HookId::StartPar,
        ControlV::If { .. } => HookId::StartIf,
        ControlV::Ifen { .. } => HookId::StartIfen,
        ControlV::While { .. } => HookId::StartWhile,
        ControlV::Print => HookId::StartPrint,
        ControlV::Enable { .. } => HookId::StartEnable,
        ControlV::Disable { .. } => HookId::StartDisable,
        ControlV::Empty => HookId::StartEmpty,
    }
}

/// The finish hook that the engine calls for a node of this kind.
pub open spec fn finish_id(c: ControlV) -> HookId {
    match c {
        ControlV::Sequence { .. } => HookId::FinishSeq,
        ControlV::Par { .. } => HookId::FinishPar,
        ControlV::If { .. } => HookId::FinishIf,
        ControlV::Ifen { .. } => HookId::FinishIfen,
        ControlV::While { .. } => HookId::FinishWhile,
        ControlV::Print => HookId::FinishPrint,
        ControlV::Enable { .. } => HookId::FinishEnable,
        ControlV::Disable { .. } => HookId::FinishDisable,
        ControlV::Empty => HookId::FinishEmpty,
    }
}

/// The node that stands after an action is applied at its own level: a
/// replacement swaps the node, everything else keeps it.
pub open spec fn node_after(c: ControlV, a: ActionV) -> ControlV {
    match a {
        ActionV::Change(cn) => cn,
        _ => c,
    }
}

/// The action reported upward: a replacement is consumed at the level it
/// occurs and surfaces as continue.
pub open spec fn consumed(a: ActionV) -> ActionV {
    match a {
        ActionV::Change(_) => ActionV::Continue,
        x => x,
    }
}

/// A pass: a stateful object with a start and finish hook for every control
/// node kind and a component-level start and finish pair.  Each hook's
/// executable body must implement exactly the visitor's own spec-level model,
/// so that the engine's contracts compose.
pub trait Visitor: View + Sized {
    /// The pass's name, for framing diagnostic dumps.
    fn name(&self) -> String;

    /// Model of every node-level hook: from the visitor's state, the hook
    /// identity, the visited node and the owning component, to the next
    /// state, the next component and the hook's outcome.
    spec fn on_hook(v: Self::V, h: HookId, node: ControlV, comp: ComponentV) -> (
        Self::V,
        ComponentV,
        Result<ActionV, Error>,
    );

    /// Model of the component-level start hook.
    spec fn on_start(v: Self::V, comp: ComponentV) -> (Self::V, ComponentV, Result<ActionV, Error>);

    /// Model of the component-level finish hook.
    spec fn on_finish(v: Self::V, comp: ComponentV) -> (
        Self::V,
        ComponentV,
        Result<ActionV, Error>,
    );

    /// Component-level start hook, called before a component's tree is
    /// walked.
    fn start(&mut self, comp: &mut Component) -> (r: VisResult)
        ensures
            Self::on_start(old(self)@, old(comp)@) == (final(self)@, final(comp)@, vis_view(r)),
    ;

    /// Component-level finish hook, called after the walked tree has been
    /// committed back.
    fn finish(&mut self, comp: &mut Component) -> (r: VisResult)
        ensures
            Self::on_finish(old(self)@, old(comp)@) == (final(self)@, final(comp)@, vis_view(r)),
    ;

    fn start_seq(&mut self, node: &Control, comp: &mut Component) -> (r: VisResult)
        ensures
            Self::on_hook(old(self)@, HookId::StartSeq, node@, old(comp)@) == (final(self)@, final(comp)@, vis_view(r)),
    ;

    fn finish_seq(&mut self, node: &Control, comp: &mut Component) -> (r: VisResult)
        ensures
            Self::on_hook(old(self)@, HookId::FinishSeq, node@, old(comp)@) == (final(self)@, final(comp)@, vis_view(r)),
    ;

    fn start_par(&mut self, node: &Control, comp: &mut Component) -> (r: VisResult)
        ensures
            Self::on_hook(old(self)@, HookId::StartPar, node@, old(comp)@) == (final(self)@, final(comp)@, vis_view(r)),
    ;

    fn finish_par(&mut self, node: &Control, comp: &mut Component) -> (r: VisResult)
        ensures
            Self::on_hook(old(self)@, HookId::FinishPar, node@, old(comp)@) == (final(self)@, final(comp)@, vis_view(r)),
    ;

    fn start_if(&mut self, node: &Control, comp: &mut Component) -> (r: VisResult)
        ensures
            Self::on_hook(old(self)@, HookId::StartIf, node@, old(comp)@) == (final(self)@, final(comp)@, vis_view(r)),
    ;

    fn finish_if(&mut self, node: &Control, comp: &mut Component) -> (r: VisResult)
        ensures
            Self::on_hook(old(self)@, HookId::FinishIf, node@, old(comp)@) == (final(self)@, final(comp)@, vis_view(r)),
    ;

    fn start_ifen(&mut self, node: &Control, comp: &mut Component) -> (r: VisResult)
        ensures
            Self::on_hook(old(self)@, HookId::StartIfen, node@, old(comp)@) == (final(self)@, final(comp)@, vis_view(r)),
    ;

    fn finish_ifen(&mut self, node: &Control, comp: &mut Component) -> (r: VisResult)
        ensures
            Self::on_hook(old(self)@, HookId::FinishIfen, node@, old(comp)@) == (final(self)@, final(comp)@, vis_view(r)),
    ;

    fn start_while(&mut self, node: &Control, comp: &mut Component) -> (r: VisResult)
        ensures
            Self::on_hook(old(self)@, HookId::StartWhile, node@, old(comp)@) == (final(self)@, final(comp)@, vis_view(r)),
    ;

    fn finish_while(&mut self, node: &Control, comp: &mut Component) -> (r: VisResult)
        ensures
            Self::on_hook(old(self)@, HookId::FinishWhile, node@, old(comp)@) == (final(self)@, final(comp)@, vis_view(r)),
    ;

    fn start_print(&mut self, node: &Control, comp: &mut Component) -> (r: VisResult)
        ensures
            Self::on_hook(old(self)@, HookId::StartPrint, node@, old(comp)@) == (final(self)@, final(comp)@, vis_view(r)),
    ;

    fn finish_print(&mut self, node: &Control, comp: &mut Component) -> (r: VisResult)
        ensures
            Self::on_hook(old(self)@, HookId::FinishPrint, node@, old(comp)@) == (final(self)@, final(comp)@, vis_view(r)),
    ;

    fn start_enable(&mut self, node: &Control, comp: &mut Component) -> (r: VisResult)
        ensures
            Self::on_hook(old(self)@, HookId::StartEnable, node@, old(comp)@) == (final(self)@, final(comp)@, vis_view(r)),
    ;

    fn finish_enable(&mut self, node: &Control, comp: &mut Component) -> (r: VisResult)
        ensures
            Self::on_hook(old(self)@, HookId::FinishEnable, node@, old(comp)@) == (final(self)@, final(comp)@, vis_view(r)),
    ;

    fn start_disable(&mut self, node: &Control, comp: &mut Component) -> (r: VisResult)
        ensures
            Self::on_hook(old(self)@, HookId::StartDisable, node@, old(comp)@) == (final(self)@, final(comp)@, vis_view(r)),
    ;

    fn finish_disable(&mut self, node: &Control, comp: &mut Component) -> (r: VisResult)
        ensures
            Self::on_hook(old(self)@, HookId::FinishDisable, node@, old(comp)@) == (final(self)@, final(comp)@, vis_view(r)),
    ;

    fn start_empty(&mut self, node: &Control, comp: &mut Component) -> (r: VisResult)
        ensures
            Self::on_hook(old(self)@, HookId::StartEmpty, node@, old(comp)@) == (final(self)@, final(comp)@, vis_view(r)),
    ;

    fn finish_empty(&mut self, node: &Control, comp: &mut Component) -> (r: VisResult)
        ensures
            Self::on_hook(old(self)@, HookId::FinishEmpty, node@, old(comp)@) == (final(self)@, final(comp)@, vis_view(r)),
    ;

}

/// What every node-level hook promises: its executable effect on the
/// visitor, the component and the returned outcome is exactly the visitor's
/// own model of that hook.
pub open spec fn hook_post<V: Visitor>(
    h: HookId,
    v0: V::V,
    node: ControlV,
    c0: ComponentV,
    v1: V::V,
    c1: ComponentV,
    r: VisResult,
) -> bool {
    V::on_hook(v0, h, node, c0) == (v1, c1, vis_view(r))
}

/// The spec-level interpreter for one node: start hook, then the children in
/// natural order while the outcome continues, then the finish hook, then the
/// replacement applied at this node's own level and consumed.
pub open spec fn visit_spec<V: Visitor>(v: V::V, c: ControlV, comp: ComponentV) -> (
    V::V,
    ControlV,
    ComponentV,
    Result<ActionV, Error>,
)
    decreases c, 2int,
{
    let (v1, comp1, r1) = V::on_hook(v, start_id(c), c, comp);
    match r1 {
        Result::Err(e) => (v1, c, comp1, Result::Err(e)),
        Result::Ok(ActionV::Continue) => {
            let (v2, c2, comp2, r2) = kids_spec::<V>(v1, c, comp1);
            match r2 {
                Result::Err(e) => (v2, c2, comp2, Result::Err(e)),
                Result::Ok(ActionV::Continue) => {
                    let (v3, comp3, r3) = V::on_hook(v2, finish_id(c), c2, comp2);
                    match r3 {
                        Result::Err(e) => (v3, c2, comp3, Result::Err(e)),
                        Result::Ok(a3) => (v3, node_after(c2, a3), comp3, Result::Ok(consumed(a3))),
                    }
                },
                Result::Ok(a2) => (v2, node_after(c2, a2), comp2, Result::Ok(consumed(a2))),
            }
        },
        Result::Ok(a1) => (v1, node_after(c, a1), comp1, Result::Ok(consumed(a1))),
    }
}

/// The spec-level interpreter for the child phase of one node: sequence and
/// parallel nodes visit their statements in order, the conditionals visit
/// the true branch and then, if it continued, the false branch, a loop
/// visits its body, and a leaf has nothing to visit.
pub open spec fn kids_spec<V: Visitor>(v: V::V, c: ControlV, comp: ComponentV) -> (
    V::V,
    ControlV,
    ComponentV,
    Result<ActionV, Error>,
)
    decreases c, 1int,
{
    match c {
        ControlV::Sequence { stmts } => {
            let (v2, cs2, comp2, r2) = children_spec::<V>(v, stmts, comp);
            (v2, ControlV::Sequence { stmts: cs2 }, comp2, r2)
        },
        ControlV::Par { stmts } => {
            let (v2, cs2, comp2, r2) = children_spec::<V>(v, stmts, comp);
            (v2, ControlV::Par { stmts: cs2 }, comp2, r2)
        },
        ControlV::If { cond, tbranch, fbranch } => {
            let (v2, t2, comp2, r2) = visit_spec::<V>(v, *tbranch, comp);
            match r2 {
                Result::Ok(ActionV::Continue) => {
                    let (v3, f3, comp3, r3) = visit_spec::<V>(v2, *fbranch, comp2);
                    (
                        v3,
                        ControlV::If { cond, tbranch: Box::new(t2), fbranch: Box::new(f3) },
                        comp3,
                        r3,
                    )
                },
                _ => (v2, ControlV::If { cond, tbranch: Box::new(t2), fbranch }, comp2, r2),
            }
        },
        ControlV::Ifen { cond, tbranch, fbranch } => {
            let (v2, t2, comp2, r2) = visit_spec::<V>(v, *tbranch, comp);
            match r2 {
                Result::Ok(ActionV::Continue) => {
                    let (v3, f3, comp3, r3) = visit_spec::<V>(v2, *fbranch, comp2);
                    (
                        v3,
                        ControlV::Ifen { cond, tbranch: Box::new(t2), fbranch: Box::new(f3) },
                        comp3,
                        r3,
                    )
                },
                _ => (v2, ControlV::Ifen { cond, tbranch: Box::new(t2), fbranch }, comp2, r2),
            }
        },
        ControlV::While { cond, body } => {
            let (v2, b2, comp2, r2) = visit_spec::<V>(v, *body, comp);
            (v2, ControlV::While { cond, body: Box::new(b2) }, comp2, r2)
        },
        _ => (v, c, comp, Result::Ok(ActionV::Continue)),
    }
}

/// The spec-level interpreter for an ordered sequence of children: elements
/// are visited in order; the first stop or error ends the walk with the
/// later elements untouched, and a consumed replacement advances like a
/// continue.
pub open spec fn children_spec<V: Visitor>(v: V::V, cs: Seq<ControlV>, comp: ComponentV) -> (
    V::V,
    Seq<ControlV>,
    ComponentV,
    Result<ActionV, Error>,
)
    decreases cs, 0int,
{
    if cs.len() == 0 {
        (v, cs, comp, Result::Ok(ActionV::Continue))
    } else {
        let (v1, c1, comp1, r1) = visit_spec::<V>(v, cs[0], comp);
        match r1 {
            Result::Err(e) => (v1, cs.update(0, c1), comp1, Result::Err(e)),
            Result::Ok(ActionV::Stop) => (v1, cs.update(0, c1), comp1, Result::Ok(ActionV::Stop)),
            Result::Ok(_) => {
                let (v2, cs2, comp2, r2) = children_spec::<V>(
                    v1,
                    cs.subrange(1, cs.len() as int),
                    comp1,
                );
                (v2, seq![c1] + cs2, comp2, r2)
            },
        }
    }
}

/// Dispatches the start hook that belongs to this node's kind.
fn start_hook_of<V: Visitor>(visitor: &mut V, node: &Control, comp: &mut Component) -> (r:
    VisResult)
    ensures
        hook_post::<V>(
            start_id(node@),
            old(visitor)@,
            node@,
            old(comp)@,
            final(visitor)@,
            final(comp)@,
            r,
        ),
{
    match node {
        Control::Sequence { .. } => visitor.start_seq(node, comp),
        Control::Par { .. } => visitor.start_par(node, comp),
        Control::If { .. } => visitor.start_if(node, comp),
        Control::Ifen { .. } => visitor.start_ifen(node, comp),
        Control::While { .. } => visitor.start_while(node, comp),
        Control::Print => visitor.start_print(node, comp),
        Control::Enable { .. } => visitor.start_enable(node, comp),
        Control::Disable { .. } => visitor.start_disable(node, comp),
        Control::Empty => visitor.start_empty(node, comp),
    }
}

/// Dispatches the finish hook that belongs to this node's kind.
fn finish_hook_of<V: Visitor>(visitor: &mut V, node: &Control, comp: &mut Component) -> (r:
    VisResult)
    ensures
        hook_post::<V>(
            finish_id(node@),
            old(visitor)@,
            node@,
            old(comp)@,
            final(visitor)@,
            final(comp)@,
            r,
        ),
{
    match node {
        Control::Sequence { .. } => visitor.finish_seq(node, comp),
        Control::Par { .. } => visitor.finish_par(node, comp),
        Control::If { .. } => visitor.finish_if(node, comp),
        Control::Ifen { .. } => visitor.finish_ifen(node, comp),
        Control::While { .. } => visitor.finish_while(node, comp),
        Control::Print => visitor.finish_print(node, comp),
        Control::Enable { .. } => visitor.finish_enable(node, comp),
        Control::Disable { .. } => visitor.finish_disable(node, comp),
        Control::Empty => visitor.finish_empty(node, comp),
    }
}

/// Something the engine can walk: one control node, or a homogeneous ordered
/// sequence of them.
pub trait Visitable<V: Visitor>: Sized {
    /// Walks this item, calling the visitor's start hooks on the way down
    /// and its finish hooks on the way up, and returns the rewritten item
    /// with the surfacing action.
    fn visit(self, visitor: &mut V, component: &mut Component) -> (res: (Self, VisResult));
}

impl<V: Visitor> Visitable<V> for Control {
    /// The walk of one node performs exactly [`visit_spec`].
    fn visit(self, visitor: &mut V, component: &mut Component) -> (res: (Self, VisResult))
        ensures
            ({
                let (v2, c2, comp2, r2) = visit_spec::<V>(old(visitor)@, self@, old(component)@);
                &&& final(visitor)@ == v2
                &&& res.0@ == c2
                &&& final(component)@ == comp2
                &&& vis_view(res.1) == r2
            }),
        decreases self, 1int,
    {
        let mut node = self;
        let a1 = match start_hook_of(visitor, &node, component) {
            Result::Ok(a) => a,
            Result::Err(e) => {
                return (node, Result::Err(e));
            },
        };
        let act: Action = match a1 {
            Action::Continue => {
                let (node2, kr): (Control, VisResult) = match node {
                    Control::Sequence { stmts } => {
                        let (s2, r) = stmts.visit(visitor, component);
                        (Control::Sequence { stmts: s2 }, r)
                    },
                    Control::Par { stmts } => {
                        let (s2, r) = stmts.visit(visitor, component);
                        (Control::Par { stmts: s2 }, r)
                    },
                    Control::If { cond, tbranch, fbranch } => {
                        let (t2, rt) = (*tbranch).visit(visitor, component);
                        match rt {
                            Result::Ok(Action::Continue) => {
                                let (f2, rf) = (*fbranch).visit(visitor, component);
                                (
                                    Control::If {
                                        cond,
                                        tbranch: Box::new(t2),
                                        fbranch: Box::new(f2),
                                    },
                                    rf,
                                )
                            },
                            _ => (Control::If { cond, tbranch: Box::new(t2), fbranch }, rt),
                        }
                    },
                    Control::Ifen { cond, tbranch, fbranch } => {
                        let (t2, rt) = (*tbranch).visit(visitor, component);
                        match rt {
                            Result::Ok(Action::Continue) => {
                                let (f2, rf) = (*fbranch).visit(visitor, component);
                                (
                                    Control::Ifen {
                                        cond,
                                        tbranch: Box::new(t2),
                                        fbranch: Box::new(f2),
                                    },
                                    rf,
                                )
                            },
                            _ => (Control::Ifen { cond, tbranch: Box::new(t2), fbranch }, rt),
                        }
                    },
                    Control::While { cond, body } => {
                        let (b2, rb) = (*body).visit(visitor, component);
                        (Control::While { cond, body: Box::new(b2) }, rb)
                    },
                    Control::Print => (Control::Print, Result::Ok(Action::Continue)),
                    Control::Enable { group } => (
                        Control::Enable { group },
                        Result::Ok(Action::Continue),
                    ),
                    Control::Disable { group } => (
                        Control::Disable { group },
                        Result::Ok(Action::Continue),
                    ),
                    Control::Empty => (Control::Empty, Result::Ok(Action::Continue)),
                };
                node = node2;
                let a2 = match kr {
                    Result::Ok(a) => a,
                    Result::Err(e) => {
                        return (node, Result::Err(e));
                    },
                };
                match a2 {
                    Action::Continue => {
                        match finish_hook_of(visitor, &node, component) {
                            Result::Ok(a3) => a3,
                            Result::Err(e) => {
                                return (node, Result::Err(e));
                            },
                        }
                    },
                    other => other,
                }
            },
            other => other,
        };
        let r = act.apply_change(&mut node);
        (node, r)
    }
}

impl<V: Visitor> Visitable<V> for Vec<Control> {
    /// The walk of an ordered sequence of nodes performs exactly
    /// [`children_spec`].
    #[verifier::loop_isolation(false)]
    fn visit(self, visitor: &mut V, component: &mut Component) -> (res: (Self, VisResult))
        ensures
            ({
                let (v2, cs2, comp2, r2) = children_spec::<V>(
                    old(visitor)@,
                    crate::ir::controls_view(self@),
                    old(component)@,
                );
                &&& final(visitor)@ == v2
                &&& crate::ir::controls_view(res.0@) == cs2
                &&& final(component)@ == comp2
                &&& vis_view(res.1) == r2
            }),
        decreases self, 0int,
    {
        let ghost orig: Vec<Control> = self;
        let ghost v0 = old(visitor)@;
        let ghost cs0 = crate::ir::controls_view(self@);
        let ghost comp0 = old(component)@;
        let mut items = self;
        let mut i: usize = 0;
        proof {
            assert(cs0.subrange(0, cs0.len() as int) =~= cs0);
            assert(crate::ir::controls_view(items@).subrange(0, 0) + cs0 =~= cs0);
        }
        while i < items.len()
            invariant
                i <= items@.len(),
                items@.len() == cs0.len(),
                orig@.len() == cs0.len(),
                forall|j: int| i <= j < items@.len() ==> items@[j] == orig@[j],
                forall|j: int| 0 <= j < cs0.len() ==> cs0[j] == orig@[j]@,
                ({
                    let (v2, cs2, comp2, r2) = children_spec::<V>(
                        visitor@,
                        cs0.subrange(i as int, cs0.len() as int),
                        component@,
                    );
                    children_spec::<V>(v0, cs0, comp0) == (
                        v2,
                        crate::ir::controls_view(items@).subrange(0, i as int) + cs2,
                        comp2,
                        r2,
                    )
                }),
            decreases items@.len() - i,
        {
            let ghost pre_v = visitor@;
            let ghost pre_comp = component@;
            let ghost pre_items = items@;
            let child = items.remove(i);
            proof {
                assert(child == orig[i as int]);
                assert(decreases_to!(orig => orig[i as int]));
            }
            let ghost child_v = child@;
            let (child2, r) = child.visit(visitor, component);
            let ghost child2_v = child2@;
            let ghost child2_e = child2;
            items.insert(i, child2);
            proof {
                lemma_children_loop_step::<V>(
                    v0,
                    cs0,
                    comp0,
                    i as int,
                    pre_v,
                    pre_comp,
                    child_v,
                    child2_v,
                    visitor@,
                    component@,
                    vis_view(r),
                );
                assert(items@ =~= pre_items.update(i as int, child2_e));
            }
            match r {
                Result::Err(e) => {
                    proof {
                        assert(crate::ir::controls_view(items@) =~= crate::ir::controls_view(
                            pre_items,
                        ).subrange(0, i as int) + cs0.subrange(
                            i as int,
                            cs0.len() as int,
                        ).update(0, child2_v));
                    }
                    return (items, Result::Err(e));
                },
                Result::Ok(Action::Stop) => {
                    proof {
                        assert(crate::ir::controls_view(items@) =~= crate::ir::controls_view(
                            pre_items,
                        ).subrange(0, i as int) + cs0.subrange(
                            i as int,
                            cs0.len() as int,
                        ).update(0, child2_v));
                    }
                    return (items, Result::Ok(Action::Stop));
                },
                _ => {
                    proof {
                        let (nv, ncs, ncomp, nr) = children_spec::<V>(
                            visitor@,
                            cs0.subrange(i + 1, cs0.len() as int),
                            component@,
                        );
                        assert(cs0.subrange(i as int, cs0.len() as int).subrange(
                            1,
                            cs0.len() - i,
                        ) =~= cs0.subrange(i + 1, cs0.len() as int));
                        assert(crate::ir::controls_view(items@).subrange(0, i + 1)
                            =~= crate::ir::controls_view(pre_items).subrange(0, i as int) + seq![
                            child2_v,
                        ]);
                        assert((crate::ir::controls_view(pre_items).subrange(0, i as int) + seq![
                            child2_v,
                        ]) + ncs =~= crate::ir::controls_view(pre_items).subrange(0, i as int) + (
                        seq![child2_v] + ncs));
                    }
                    i = i + 1;
                },
            }
        }
        proof {
            assert(crate::ir::controls_view(items@).subrange(0, i as int)
                =~= crate::ir::controls_view(items@));
            assert(cs0.subrange(i as int, cs0.len() as int) =~= Seq::<ControlV>::empty());
        }
        (items, Result::Ok(Action::Continue))
    }
}

/// Relates one iteration of the child walk to one unfolding of
/// [`children_spec`] at position `i`.
proof fn lemma_children_loop_step<V: Visitor>(
    v0: V::V,
    cs0: Seq<ControlV>,
    comp0: ComponentV,
    i: int,
    pre_v: V::V,
    pre_comp: ComponentV,
    child: ControlV,
    child2: ControlV,
    post_v: V::V,
    post_comp: ComponentV,
    r: Result<ActionV, Error>,
)
    requires
        0 <= i < cs0.len(),
        cs0[i] == child,
        visit_spec::<V>(pre_v, child, pre_comp) == (post_v, child2, post_comp, r),
    ensures
        ({
            let rest = cs0.subrange(i, cs0.len() as int);
            children_spec::<V>(pre_v, rest, pre_comp) == (match r {
                Result::Err(e) => (post_v, rest.update(0, child2), post_comp, Result::<
                    ActionV,
                    Error,
                >::Err(e)),
                Result::Ok(ActionV::Stop) => (post_v, rest.update(0, child2), post_comp, Result::<
                    ActionV,
                    Error,
                >::Ok(ActionV::Stop)),
                Result::Ok(_) => {
                    let (v2, cs2, comp2, r2) = children_spec::<V>(
                        post_v,
                        cs0.subrange(i + 1, cs0.len() as int),
                        post_comp,
                    );
                    (v2, seq![child2] + cs2, comp2, r2)
                },
            })
        }),
{
    let rest = cs0.subrange(i, cs0.len() as int);
    assert(rest.len() > 0);
    assert(rest[0] == cs0[i]);
    assert(rest.subrange(1, rest.len() as int) =~= cs0.subrange(i + 1, cs0.len() as int));
}

/// One spec step of the pass driver over a single component: the start hook;
/// if it continued, the walk of an independent copy of the control root with
/// the component mutable beside it, the rewritten root committed back only
/// when the walk succeeded, and the finish hook.
pub open spec fn comp_pass_spec<V: Visitor>(v: V::V, comp: ComponentV) -> (
    V::V,
    ComponentV,
    Result<(), Error>,
) {
    let (v1, comp1, r1) = V::on_start(v, comp);
    match r1 {
        Result::Err(e) => (v1, comp1, Result::Err(e)),
        Result::Ok(ActionV::Continue) => {
            let (v2, ctrl2, comp2, r2) = visit_spec::<V>(v1, comp1.control, comp1);
            match r2 {
                Result::Err(e) => (v2, comp2, Result::Err(e)),
                Result::Ok(_) => {
                    let committed = ComponentV { control: ctrl2, ..comp2 };
                    let (v3, comp3, r3) = V::on_finish(v2, committed);
                    match r3 {
                        Result::Err(e) => (v3, comp3, Result::Err(e)),
                        Result::Ok(_) => (v3, comp3, Result::Ok(())),
                    }
                },
            }
        },
        Result::Ok(_) => (v1, comp1, Result::Ok(())),
    }
}

/// The spec of one whole pass: every component in the program's natural
/// order, stopping at the first error with the later components untouched.
pub open spec fn pass_spec<V: Visitor>(v: V::V, comps: Seq<ComponentV>) -> (
    V::V,
    Seq<ComponentV>,
    Result<(), Error>,
)
    decreases comps.len(),
{
    if comps.len() == 0 {
        (v, comps, Result::Ok(()))
    } else {
        let (v1, c1, r1) = comp_pass_spec::<V>(v, comps[0]);
        match r1 {
            Result::Err(e) => (v1, comps.update(0, c1), Result::Err(e)),
            Result::Ok(_) => {
                let (v2, cs2, r2) = pass_spec::<V>(v1, comps.subrange(1, comps.len() as int));
                (v2, seq![c1] + cs2, r2)
            },
        }
    }
}

/// Runs one pass over every component of a program, in order: start hook,
/// walk of an independent copy of the control root, commit of the rewritten
/// root on success, finish hook.  The first hook or traversal error aborts
/// the whole run; mutations already applied are not rolled back.
#[verifier::loop_isolation(false)]
pub fn run_pass<V: Visitor>(visitor: &mut V, prog: &mut Program) -> (r: Result<(), Error>)
    ensures
        ({
            let (v2, cs2, r2) = pass_spec::<V>(old(visitor)@, old(prog)@.components);
            &&& final(visitor)@ == v2
            &&& final(prog)@.components == cs2
            &&& final(prog)@.debug_mode == old(prog)@.debug_mode
            &&& r == r2
        }),
{
    let ghost v0 = old(visitor)@;
    let ghost cs0 = old(prog)@.components;
    let mut i: usize = 0;
    proof {
        assert(cs0.subrange(0, cs0.len() as int) =~= cs0);
        assert(prog@.components.subrange(0, 0) + cs0 =~= cs0);
    }
    while i < prog.components.len()
        invariant
            i <= prog.components@.len(),
            prog.components@.len() == cs0.len(),
            prog.debug_mode == old(prog).debug_mode,
            forall|j: int| i <= j < prog.components@.len() ==> prog.components@[j]@ == cs0[j],
            ({
                let (v2, cs2, r2) = pass_spec::<V>(
                    visitor@,
                    cs0.subrange(i as int, cs0.len() as int),
                );
                pass_spec::<V>(v0, cs0) == (
                    v2,
                    prog@.components.subrange(0, i as int) + cs2,
                    r2,
                )
            }),
        decreases prog.components@.len() - i,
    {
        let ghost pre_v = visitor@;
        let ghost pre_comps = prog@.components;
        let mut comp = prog.components.remove(i);
        let ghost comp_in = comp@;
        let step = run_component_pass(visitor, &mut comp);
        let ghost comp_out = comp@;
        prog.components.insert(i, comp);
        proof {
            lemma_pass_loop_step::<V>(v0, cs0, i as int, pre_v, comp_in, visitor@, comp_out, step);
            assert(prog@.components =~= pre_comps.update(i as int, comp_out));
        }
        match step {
            Result::Err(e) => {
                proof {
                    assert(prog@.components =~= prog@.components.subrange(0, i as int)
                        + cs0.subrange(i as int, cs0.len() as int).update(0, comp_out));
                }
                return Result::Err(e);
            },
            Result::Ok(()) => {
                proof {
                    let (nv, ncs, nr) = pass_spec::<V>(
                        visitor@,
                        cs0.subrange(i + 1, cs0.len() as int),
                    );
                    assert(cs0.subrange(i as int, cs0.len() as int).subrange(1, cs0.len() - i)
                        =~= cs0.subrange(i + 1, cs0.len() as int));
                    assert(prog@.components.subrange(0, i + 1) =~= pre_comps.subrange(0, i as int)
                        + seq![comp_out]);
                    assert((pre_comps.subrange(0, i as int) + seq![comp@]) + ncs
                        =~= pre_comps.subrange(0, i as int) + (seq![comp_out] + ncs));
                }
                i = i + 1;
            },
        }
    }
    proof {
        assert(prog@.components.subrange(0, i as int) =~= prog@.components);
        assert(cs0.subrange(i as int, cs0.len() as int) =~= Seq::<ComponentV>::empty());
    }
    Result::Ok(())
}

/// Relates one iteration of the driver loop to one unfolding of
/// [`pass_spec`] at position `i`.
proof fn lemma_pass_loop_step<V: Visitor>(
    v0: V::V,
    cs0: Seq<ComponentV>,
    i: int,
    pre_v: V::V,
    comp_in: ComponentV,
    post_v: V::V,
    comp_out: ComponentV,
    r: Result<(), Error>,
)
    requires
        0 <= i < cs0.len(),
        cs0[i] == comp_in,
        comp_pass_spec::<V>(pre_v, comp_in) == (post_v, comp_out, r),
    ensures
        ({
            let rest = cs0.subrange(i, cs0.len() as int);
            pass_spec::<V>(pre_v, rest) == (match r {
                Result::Err(e) => (post_v, rest.update(0, comp_out), Result::<(), Error>::Err(e)),
                Result::Ok(_) => {
                    let (v2, cs2, r2) = pass_spec::<V>(
                        post_v,
                        cs0.subrange(i + 1, cs0.len() as int),
                    );
                    (v2, seq![comp_out] + cs2, r2)
                },
            })
        }),
{
    let rest = cs0.subrange(i, cs0.len() as int);
    assert(rest.len() > 0);
    assert(rest[0] == cs0[i]);
    assert(rest.subrange(1, rest.len() as int) =~= cs0.subrange(i + 1, cs0.len() as int));
}

/// One component's share of a pass: the component-level start hook, the walk
/// of an independent copy of the control root, the commit, the finish hook.
fn run_component_pass<V: Visitor>(visitor: &mut V, comp: &mut Component) -> (r: Result<(), Error>)
    ensures
        comp_pass_spec::<V>(old(visitor)@, old(comp)@) == (final(visitor)@, final(comp)@, r),
{
    match visitor.start(comp) {
        Result::Err(e) => Result::Err(e),
        Result::Ok(Action::Continue) => {
            // An independent working copy of the control root, so that hooks
            // keep mutable access to the component while the tree is walked.
            let work = comp.control.duplicate();
            let (work2, rv) = work.visit(visitor, comp);
            match rv {
                Result::Err(e) => Result::Err(e),
                Result::Ok(_) => {
                    comp.control = work2;
                    match visitor.finish(comp) {
                        Result::Err(e) => Result::Err(e),
                        Result::Ok(_) => Result::Ok(()),
                    }
                },
            }
        },
        Result::Ok(_) => Result::Ok(()),
    }
}

} // verus!
