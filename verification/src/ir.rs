//! The program model: components, cells, ports, assignments and the control
//! tree, together with the mathematical views the contracts are stated over.
//!
//! Cells and ports live in arenas owned by their component and are addressed
//! by position, so an assignment names its two endpoints by [`PortRef`]
//! instead of owning them.
use vstd::prelude::*;

verus! {

/// Direction of a port: data flows into or out of its owner.
#[derive(Clone, Copy, PartialEq, Eq, Structural, Debug)]
pub enum Direction {
    Input,
    Output,
}

/// A named, fixed-width wire endpoint on a cell or on a component signature.
#[derive(Debug)]
pub struct Port {
    pub name: String,
    pub width: u64,
    pub direction: Direction,
    /// Whether the port carries the clock tag.  At most one port per
    /// signature or cell is expected to carry it.
    pub clock: bool,
}

/// Mathematical model of a [`Port`].
pub struct PortV {
    pub name: Seq<char>,
    pub width: u64,
    pub direction: Direction,
    pub clock: bool,
}

impl View for Port {
    type V = PortV;

    open spec fn view(&self) -> PortV {
        PortV { name: self.name@, width: self.width, direction: self.direction, clock: self.clock }
    }
}

/// A named instance of another component or primitive, owning its ports.
#[derive(Debug)]
pub struct Cell {
    pub name: String,
    pub ports: Vec<Port>,
}

/// Mathematical model of a [`Cell`].
pub struct CellV {
    pub name: Seq<char>,
    pub ports: Seq<PortV>,
}

impl View for Cell {
    type V = CellV;

    open spec fn view(&self) -> CellV {
        CellV { name: self.name@, ports: ports_view(self.ports@) }
    }
}

/// The model of a sequence of ports, port by port.
pub open spec fn ports_view(ports: Seq<Port>) -> Seq<PortV> {
    Seq::new(ports.len(), |i: int| ports[i]@)
}

/// A stable address of a port: either on the owning component's signature or
/// on one of its cells, both by position.
#[derive(Clone, Copy, PartialEq, Eq, Structural, Debug)]
pub enum PortRef {
    /// Port `port` of the component's own signature.
    Signature { port: usize },
    /// Port `port` of cell `cell`.
    Cell { cell: usize, port: usize },
}

/// A boolean condition gating an assignment.  Only the constant true guard
/// is in scope here; an assignment guarded by it is a continuous assignment.
#[derive(Clone, Copy, PartialEq, Eq, Structural, Debug)]
pub enum Guard {
    True,
}

/// A directed wire from a source port to a destination port, active while
/// its guard holds.
#[derive(Clone, Copy, PartialEq, Eq, Structural, Debug)]
pub struct Assignment {
    pub dst: PortRef,
    pub src: PortRef,
    pub guard: Guard,
}

/// The schedule of a component: a closed recursive variant over sequencing,
/// parallel composition, the two conditional forms, iteration, a diagnostic
/// print, group enable and disable, and the empty schedule.
#[derive(Debug)]
pub enum Control {
    Sequence { stmts: Vec<Control> },
    Par { stmts: Vec<Control> },
    If { cond: Guard, tbranch: Box<Control>, fbranch: Box<Control> },
    Ifen { cond: Guard, tbranch: Box<Control>, fbranch: Box<Control> },
    While { cond: Guard, body: Box<Control> },
    Print,
    Enable { group: String },
    Disable { group: String },
    Empty,
}

/// Mathematical model of a [`Control`] tree.
pub enum ControlV {
    Sequence { stmts: Seq<ControlV> },
    Par { stmts: Seq<ControlV> },
    If { cond: Guard, tbranch: Box<ControlV>, fbranch: Box<ControlV> },
    Ifen { cond: Guard, tbranch: Box<ControlV>, fbranch: Box<ControlV> },
    While { cond: Guard, body: Box<ControlV> },
    Print,
    Enable { group: Seq<char> },
    Disable { group: Seq<char> },
    Empty,
}

/// The model of one control node.
pub open spec fn control_model(c: Control) -> ControlV
    decreases c,
    via control_model_dec
{
    match c {
        Control::Sequence { stmts } => ControlV::Sequence { stmts: controls_view(stmts@) },
        Control::Par { stmts } => ControlV::Par { stmts: controls_view(stmts@) },
        Control::If { cond, tbranch, fbranch } => ControlV::If {
            cond,
            tbranch: Box::new(control_model(*tbranch)),
            fbranch: Box::new(control_model(*fbranch)),
        },
        Control::Ifen { cond, tbranch, fbranch } => ControlV::Ifen {
            cond,
            tbranch: Box::new(control_model(*tbranch)),
            fbranch: Box::new(control_model(*fbranch)),
        },
        Control::While { cond, body } => ControlV::While {
            cond,
            body: Box::new(control_model(*body)),
        },
        Control::Print => ControlV::Print,
        Control::Enable { group } => ControlV::Enable { group: group@ },
        Control::Disable { group } => ControlV::Disable { group: group@ },
        Control::Empty => ControlV::Empty,
    }
}

#[via_fn]
proof fn control_model_dec(c: Control) {
    match c {
        Control::Sequence { stmts } => {
            assert(decreases_to!(c => stmts));
            assert(decreases_to!(stmts => stmts@));
        },
        Control::Par { stmts } => {
            assert(decreases_to!(c => stmts));
            assert(decreases_to!(stmts => stmts@));
        },
        _ => {},
    }
}

impl View for Control {
    type V = ControlV;

    open spec fn view(&self) -> ControlV {
        control_model(*self)
    }
}

/// The model of a sequence of control nodes, node by node.
pub open spec fn controls_view(stmts: Seq<Control>) -> Seq<ControlV>
    decreases stmts,
{
    if stmts.len() == 0 {
        Seq::empty()
    } else {
        controls_view(stmts.subrange(0, stmts.len() - 1)).push(
            control_model(stmts[stmts.len() - 1]),
        )
    }
}

/// The sequence model is the element models, position by position.
pub broadcast proof fn lemma_controls_view(stmts: Seq<Control>)
    ensures
        (#[trigger] controls_view(stmts)).len() == stmts.len(),
        forall|i: int| 0 <= i < stmts.len() ==> controls_view(stmts)[i] == stmts[i]@,
    decreases stmts.len(),
{
    if stmts.len() > 0 {
        lemma_controls_view(stmts.subrange(0, stmts.len() - 1));
    }
}

/// A named unit of structure and schedule: a port signature, an
/// insertion-ordered arena of cells, a set of continuous assignments and
/// exactly one control root.
#[derive(Debug)]
pub struct Component {
    pub name: String,
    pub signature: Vec<Port>,
    pub cells: Vec<Cell>,
    pub continuous_assignments: Vec<Assignment>,
    pub control: Control,
}

/// Mathematical model of a [`Component`].
pub struct ComponentV {
    pub name: Seq<char>,
    pub signature: Seq<PortV>,
    pub cells: Seq<CellV>,
    pub continuous_assignments: Seq<Assignment>,
    pub control: ControlV,
}

impl View for Component {
    type V = ComponentV;

    open spec fn view(&self) -> ComponentV {
        ComponentV {
            name: self.name@,
            signature: ports_view(self.signature@),
            cells: Seq::new(self.cells@.len(), |i: int| self.cells@[i]@),
            continuous_assignments: self.continuous_assignments@,
            control: self.control@,
        }
    }
}

/// A database of components in their natural iteration order, plus the
/// debug-mode flag that asks the driver for a diagnostic dump after a pass.
#[derive(Debug)]
pub struct Program {
    pub components: Vec<Component>,
    pub debug_mode: bool,
}

/// Mathematical model of a [`Program`].
pub struct ProgramV {
    pub components: Seq<ComponentV>,
    pub debug_mode: bool,
}

impl View for Program {
    type V = ProgramV;

    open spec fn view(&self) -> ProgramV {
        ProgramV {
            components: Seq::new(self.components@.len(), |i: int| self.components@[i]@),
            debug_mode: self.debug_mode,
        }
    }
}

/// The position of the first clock-tagged port of `ports` at or after `i`,
/// if any.
pub open spec fn first_clock_from(ports: Seq<PortV>, i: int) -> Option<int>
    decreases ports.len() - i,
{
    if i < 0 || i >= ports.len() {
        None
    } else if ports[i].clock {
        Some(i)
    } else {
        first_clock_from(ports, i + 1)
    }
}

/// The position of the first clock-tagged port of `ports`, if any.  Under
/// the model's invariant that at most one port carries the clock tag, this
/// is the position of the only one.
pub open spec fn first_clock(ports: Seq<PortV>) -> Option<int> {
    first_clock_from(ports, 0)
}

/// Finds the clock-tagged port of a signature or of a cell's port arena.
/// Absence is a normal outcome: the caller skips, it is no error.
pub fn find_clock(ports: &Vec<Port>) -> (r: Option<usize>)
    ensures
        match r {
            Some(i) => i < ports@.len() && first_clock(ports_view(ports@)) == Some(i as int),
            None => first_clock(ports_view(ports@)) == None::<int>,
        },
{
    let ghost pv = ports_view(ports@);
    let mut i: usize = 0;
    while i < ports.len()
        invariant
            i <= ports@.len(),
            pv == ports_view(ports@),
            pv.len() == ports@.len(),
            first_clock(pv) == first_clock_from(pv, i as int),
        decreases ports@.len() - i,
    {
        proof {
            lemma_first_clock_step(pv, i as int);
        }
        if ports[i].clock {
            return Some(i);
        }
        i = i + 1;
    }
    None
}

/// Unfolds one step of the first-clock search.
proof fn lemma_first_clock_step(ports: Seq<PortV>, i: int)
    requires
        0 <= i < ports.len(),
    ensures
        ports[i].clock ==> first_clock_from(ports, i) == Some(i),
        !ports[i].clock ==> first_clock_from(ports, i) == first_clock_from(ports, i + 1),
{
}

impl Control {
    /// An independent deep copy of the tree, equal to the original in the
    /// model.
    pub fn duplicate(&self) -> (r: Control)
        ensures
            r@ == self@,
        decreases self, 1int,
    {
        match self {
            Control::Sequence { stmts } => Control::Sequence { stmts: duplicate_controls(stmts) },
            Control::Par { stmts } => Control::Par { stmts: duplicate_controls(stmts) },
            Control::If { cond, tbranch, fbranch } => Control::If {
                cond: *cond,
                tbranch: Box::new(tbranch.duplicate()),
                fbranch: Box::new(fbranch.duplicate()),
            },
            Control::Ifen { cond, tbranch, fbranch } => Control::Ifen {
                cond: *cond,
                tbranch: Box::new(tbranch.duplicate()),
                fbranch: Box::new(fbranch.duplicate()),
            },
            Control::While { cond, body } => Control::While {
                cond: *cond,
                body: Box::new(body.duplicate()),
            },
            Control::Print => Control::Print,
            Control::Enable { group } => Control::Enable { group: group.clone() },
            Control::Disable { group } => Control::Disable { group: group.clone() },
            Control::Empty => Control::Empty,
        }
    }
}

/// Deep-copies an ordered sequence of control nodes, element by element.
fn duplicate_controls(stmts: &Vec<Control>) -> (r: Vec<Control>)
    ensures
        controls_view(r@) == controls_view(stmts@),
    decreases stmts, 0int,
{
    let mut out: Vec<Control> = Vec::new();
    let mut i: usize = 0;
    while i < stmts.len()
        invariant
            i <= stmts@.len(),
            out@.len() == i,
            forall|j: int| 0 <= j < i ==> out@[j]@ == stmts@[j]@,
        decreases stmts@.len() - i,
    {
        proof {
            assert(decreases_to!(stmts => stmts[i as int]));
        }
        let d = stmts[i].duplicate();
        out.push(d);
        i = i + 1;
    }
    proof {
        lemma_controls_view(out@);
        lemma_controls_view(stmts@);
        assert(controls_view(out@) =~= controls_view(stmts@));
    }
    out
}

/// At most one port of `ports` carries the clock tag.
pub open spec fn unique_clock(ports: Seq<PortV>) -> bool {
    forall|i: int, j: int|
        #![trigger ports[i].clock, ports[j].clock]
        0 <= i < j < ports.len() && ports[i].clock ==> !ports[j].clock
}

/// A port address resolves inside its component: it names an existing
/// signature port, or an existing port of an existing cell.
pub open spec fn port_ref_wf(c: ComponentV, r: PortRef) -> bool {
    match r {
        PortRef::Signature { port } => port < c.signature.len(),
        PortRef::Cell { cell, port } => cell < c.cells.len() && port < c.cells[cell as int
        ].ports.len(),
    }
}

/// An assignment references only ports belonging to the cells or signature
/// of its own component.
pub open spec fn assignment_wf(c: ComponentV, a: Assignment) -> bool {
    port_ref_wf(c, a.dst) && port_ref_wf(c, a.src)
}

/// Well-formedness of a component: at most one clock-tagged port on the
/// signature and on every cell, and every assignment resolving inside the
/// component.
pub open spec fn component_wf(c: ComponentV) -> bool {
    &&& unique_clock(c.signature)
    &&& forall|i: int| 0 <= i < c.cells.len() ==> unique_clock(#[trigger] c.cells[i].ports)
    &&& forall|i: int|
        0 <= i < c.continuous_assignments.len() ==> assignment_wf(
            c,
            #[trigger] c.continuous_assignments[i],
        )
}

impl Component {
    /// Builder step: records a wire from `src` to `dst` under `guard` as a
    /// continuous assignment of this component.
    pub fn add_continuous_assignment(&mut self, dst: PortRef, src: PortRef, guard: Guard)
        ensures
            final(self)@ == (ComponentV {
                continuous_assignments: old(self)@.continuous_assignments.push(
                    Assignment { dst, src, guard },
                ),
                ..old(self)@
            }),
    {
        self.continuous_assignments.push(Assignment { dst, src, guard });
    }

    /// Builder step: places a freshly synthesized cell at the end of this
    /// component's cell arena.
    pub fn add_cell(&mut self, cell: Cell)
        ensures
            final(self)@ == (ComponentV { cells: old(self)@.cells.push(cell@), ..old(self)@ }),
    {
        let ghost cv = cell@;
        self.cells.push(cell);
        proof {
            assert(self@.cells =~= old(self)@.cells.push(cv));
        }
    }
}

/// A found first clock lies inside the searched ports and carries the tag.
pub proof fn lemma_first_clock_range(ports: Seq<PortV>, i: int)
    ensures
        match first_clock_from(ports, i) {
            Some(p) => i <= p < ports.len() && ports[p].clock,
            None => true,
        },
    decreases ports.len() - i,
{
    if i < 0 || i >= ports.len() {
    } else if ports[i].clock {
    } else {
        lemma_first_clock_range(ports, i + 1);
    }
}

} // verus!
