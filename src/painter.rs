use vstd::prelude::*;

use crate::decimal::{decimal_text, Decimal};

verus! {

/// A drawing instruction as contracts see it.
pub enum InstView {
    Node { x: Decimal, y: Decimal, name: Seq<char> },
    Edge { from: Seq<char>, to: Seq<char> },
}

/// A painter as contracts see it: its bound for `y` and its instructions in
/// the order they were added.
pub struct PainterView {
    pub aspect_ratio: Decimal,
    pub insts: Seq<InstView>,
}

/// A node at `(x, y)` lies on the canvas: `x <= 1` and `y <= aspect_ratio`.
pub open spec fn node_fits(x: Decimal, y: Decimal, aspect_ratio: Decimal) -> bool {
    &&& x.wf()
    &&& y.wf()
    &&& x.spec_le(Decimal::spec_one())
    &&& y.spec_le(aspect_ratio)
}

pub open spec fn inst_fits(inst: InstView, aspect_ratio: Decimal) -> bool {
    match inst {
        InstView::Node { x, y, .. } => node_fits(x, y, aspect_ratio),
        InstView::Edge { .. } => true,
    }
}

impl PainterView {
    /// Every node placed so far lies on the canvas.
    pub open spec fn wf(self) -> bool {
        &&& self.aspect_ratio.wf()
        &&& forall|i: int| 0 <= i < self.insts.len() ==> inst_fits(#[trigger] self.insts[i], self.aspect_ratio)
    }

    pub open spec fn text(self) -> Seq<char> {
        tikz_text(self.insts)
    }
}

/// The TikZ statement of one instruction.
pub open spec fn statement(inst: InstView) -> Seq<char> {
    match inst {
        InstView::Node { x, y, name } => "\\node[draw, circle] ("@ + name + ") at ("@ + decimal_text(x)
            + "\\hsize, "@ + decimal_text(y.spec_neg()) + "\\hsize) {"@ + name + "};"@,
        InstView::Edge { from, to } => "\\draw ("@ + from + ") to ("@ + to + ");"@,
    }
}

/// The lines joined by single newlines, with none after the last.
pub open spec fn join_lines(lines: Seq<Seq<char>>) -> Seq<char>
    decreases lines.len(),
{
    if lines.len() == 0 {
        seq![]
    } else if lines.len() == 1 {
        lines[0]
    } else {
        join_lines(lines.drop_last()) + seq!['\n'] + lines.last()
    }
}

/// One statement per instruction, in the same order.
pub open spec fn statements(insts: Seq<InstView>) -> Seq<Seq<char>> {
    insts.map_values(|inst: InstView| statement(inst))
}

/// The whole TikZ text of a sequence of instructions.
pub open spec fn tikz_text(insts: Seq<InstView>) -> Seq<char> {
    join_lines(statements(insts))
}

/// Appending an instruction appends its statement, after a newline unless
/// it is the first.
pub proof fn lemma_text_push(insts: Seq<InstView>, inst: InstView)
    ensures
        tikz_text(insts.push(inst)) == if insts.len() == 0 {
            statement(inst)
        } else {
            tikz_text(insts) + seq!['\n'] + statement(inst)
        },
{
    assert(statements(insts.push(inst)).drop_last() =~= statements(insts));
}

#[derive(Clone, Debug)]
struct NodeData {
    x: Decimal,
    y: Decimal,
    name: String,
}

#[derive(Clone, Debug)]
struct EdgeData {
    from: String,
    to: String,
}

#[derive(Clone, Debug)]
enum DrawInst {
    Node(NodeData),
    Edge(EdgeData),
}

impl View for DrawInst {
    type V = InstView;

    closed spec fn view(&self) -> InstView {
        match self {
            DrawInst::Node(n) => InstView::Node { x: n.x, y: n.y, name: n.name@ },
            DrawInst::Edge(e) => InstView::Edge { from: e.from@, to: e.to@ },
        }
    }
}

impl DrawInst {
    fn node(x: Decimal, y: Decimal, name: String) -> (r: Self)
        ensures
            r@ == (InstView::Node { x, y, name: name@ }),
    {
        DrawInst::Node(NodeData { x, y, name })
    }

    fn edge(from: String, to: String) -> (r: Self)
        ensures
            r@ == (InstView::Edge { from: from@, to: to@ }),
    {
        DrawInst::Edge(EdgeData { from, to })
    }

    /// Appends `statement(self@)` to `out`.
    fn write_statement(&self, out: &mut String)
        requires
            self@ matches InstView::Node { x, y, .. } ==> x.wf() && y.wf(),
        ensures
            final(out)@ == old(out)@ + statement(self@),
    {
        let ghost start = out@;
        match self {
            DrawInst::Node(n) => {
                out.append("\\node[draw, circle] (");
                out.append(n.name.as_str());
                out.append(") at (");
                n.x.write_text(out);
                out.append("\\hsize, ");
                n.y.neg().write_text(out);
                out.append("\\hsize) {");
                out.append(n.name.as_str());
                out.append("};");
            },
            DrawInst::Edge(e) => {
                out.append("\\draw (");
                out.append(e.from.as_str());
                out.append(") to (");
                out.append(e.to.as_str());
                out.append(");");
            },
        }
        assert(out@ =~= start + statement(self@));
    }
}

/// Collects node and edge instructions and writes them out as TikZ.
#[derive(Clone, Debug)]
pub struct TikzPainter {
    aspect_ratio: Decimal,
    insts: Vec<DrawInst>,
}

impl View for TikzPainter {
    type V = PainterView;

    closed spec fn view(&self) -> PainterView {
        PainterView {
            aspect_ratio: self.aspect_ratio,
            insts: self.insts@.map_values(|i: DrawInst| i@),
        }
    }
}

impl TikzPainter {
    /// An empty painter whose nodes must keep `y <= aspect_ratio`.
    pub fn new(aspect_ratio: Decimal) -> (r: Self)
        requires
            aspect_ratio.wf(),
        ensures
            r@.aspect_ratio == aspect_ratio,
            r@.insts == Seq::<InstView>::empty(),
            r@.wf(),
    {
        let r = TikzPainter { aspect_ratio, insts: Vec::new() };
        assert(r@.insts =~= Seq::<InstView>::empty());
        r
    }

    /// Places a node named `name` at `(x, y)`, which must lie on the canvas.
    pub fn draw_node(&mut self, x: Decimal, y: Decimal, name: String)
        requires
            old(self)@.wf(),
            node_fits(x, y, old(self)@.aspect_ratio),
        ensures
            final(self)@.aspect_ratio == old(self)@.aspect_ratio,
            final(self)@.insts == old(self)@.insts.push(InstView::Node { x, y, name: name@ }),
            final(self)@.wf(),
    {
        let inst = DrawInst::node(x, y, name);
        self.insts.push(inst);
        assert(self@.insts =~= old(self)@.insts.push(inst@));
    }

    /// Places a node like `draw_node`, or leaves the painter as it is and
    /// says which coordinate lies off the canvas (`x` is looked at first).
    pub fn try_draw_node(&mut self, x: Decimal, y: Decimal, name: String) -> (r: Result<(), CoordError>)
        requires
            old(self)@.wf(),
            x.wf(),
            y.wf(),
        ensures
            r == Ok::<(), CoordError>(()) <==> node_fits(x, y, old(self)@.aspect_ratio),
            r == Err::<(), CoordError>(CoordError::XOutOfRange) <==> !x.spec_le(Decimal::spec_one()),
            r == Err::<(), CoordError>(CoordError::YOutOfRange) <==> x.spec_le(Decimal::spec_one())
                && !y.spec_le(old(self)@.aspect_ratio),
            r is Ok ==> final(self)@.insts == old(self)@.insts.push(InstView::Node { x, y, name: name@ }),
            r is Err ==> final(self)@.insts == old(self)@.insts,
            final(self)@.aspect_ratio == old(self)@.aspect_ratio,
            final(self)@.wf(),
    {
        if !x.le(&Decimal::one()) {
            return Err(CoordError::XOutOfRange);
        }
        if !y.le(&self.aspect_ratio) {
            return Err(CoordError::YOutOfRange);
        }
        self.draw_node(x, y, name);
        Ok(())
    }

    /// Connects the points named `from` and `to`; the names are not checked
    /// against the nodes placed so far.
    pub fn draw_edge(&mut self, from: String, to: String)
        requires
            old(self)@.wf(),
        ensures
            final(self)@.aspect_ratio == old(self)@.aspect_ratio,
            final(self)@.insts == old(self)@.insts.push(InstView::Edge { from: from@, to: to@ }),
            final(self)@.wf(),
    {
        let inst = DrawInst::edge(from, to);
        self.insts.push(inst);
        assert(self@.insts =~= old(self)@.insts.push(inst@));
    }

    /// Appends the TikZ text of all instructions, in the order they were
    /// added, to `sink`.
    pub fn save(&self, sink: &mut String)
        requires
            self@.wf(),
        ensures
            final(sink)@ == old(sink)@ + self@.text(),
    {
        let ghost start = sink@;
        let ghost insts = self@.insts;
        let n = self.insts.len();
        let mut i: usize = 0;
        assert(insts.take(0) =~= Seq::<InstView>::empty());
        while i < n
            invariant
                n == self.insts@.len(),
                insts == self@.insts,
                self@.wf(),
                i <= n,
                sink@ == start + tikz_text(insts.take(i as int)),
            decreases n - i,
        {
            proof {
                reveal_strlit("\n");
                lemma_text_push(insts.take(i as int), insts[i as int]);
                assert(insts.take(i as int).push(insts[i as int]) =~= insts.take(i + 1));
                assert(inst_fits(insts[i as int], self@.aspect_ratio));
            }
            if i > 0 {
                sink.append("\n");
            }
            self.insts[i].write_statement(sink);
            proof {
                assert(sink@ =~= start + tikz_text(insts.take(i + 1)));
            }
            i = i + 1;
        }
        assert(insts.take(n as int) =~= insts);
    }
}

/// Which coordinate of a node lies off the canvas.
#[derive(Clone, Copy, Debug, PartialEq, Eq, Structural)]
pub enum CoordError {
    /// `x` is above `1`.
    XOutOfRange,
    /// `y` is above the painter's aspect ratio.
    YOutOfRange,
}

/// A plotter; it has no operations of its own.
pub struct TikzPlotter {}

} // verus!
