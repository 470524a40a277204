use vstd::prelude::*;

use crate::decimal::{decimal_text, digit_char, fixed_text, nat_text, Decimal};
use crate::painter::{
    join_lines, lemma_text_push, node_fits, statement, statements, tikz_text, InstView,
    PainterView,
};

verus! {

/// The text holds exactly one statement per instruction, in the order the
/// instructions were added, joined by single newlines.
pub proof fn law_one_statement_per_instruction(insts: Seq<InstView>)
    ensures
        statements(insts).len() == insts.len(),
        forall|i: int| 0 <= i < insts.len() ==> #[trigger] statements(insts)[i] == statement(insts[i]),
        tikz_text(insts) == join_lines(statements(insts)),
{
}

/// `s` holds no newline character.
pub open spec fn newline_free(s: Seq<char>) -> bool {
    forall|i: int| 0 <= i < s.len() ==> s[i] != '\n'
}

/// The number of newline characters in `s`.
pub open spec fn count_newlines(s: Seq<char>) -> nat
    decreases s.len(),
{
    if s.len() == 0 {
        0
    } else {
        count_newlines(s.drop_last()) + if s.last() == '\n' {
            1nat
        } else {
            0nat
        }
    }
}

/// The names an instruction carries hold no newline.
pub open spec fn names_newline_free(inst: InstView) -> bool {
    match inst {
        InstView::Node { name, .. } => newline_free(name),
        InstView::Edge { from, to } => newline_free(from) && newline_free(to),
    }
}

/// Where no name holds a newline, the text of `n > 0` instructions holds
/// exactly `n - 1` newlines: it splits into exactly one statement per
/// instruction.
pub proof fn law_statement_count(insts: Seq<InstView>)
    requires
        insts.len() > 0,
        forall|i: int| 0 <= i < insts.len() ==> names_newline_free(#[trigger] insts[i]),
    ensures
        count_newlines(tikz_text(insts)) + 1 == insts.len(),
    decreases insts.len(),
{
    let last = insts.last();
    let rest = insts.drop_last();
    assert(rest.push(last) =~= insts);
    assert(names_newline_free(insts[insts.len() - 1]));
    lemma_statement_newline_free(last);
    lemma_count_free(statement(last));
    lemma_text_push(rest, last);
    if rest.len() > 0 {
        assert forall|i: int| 0 <= i < rest.len() implies names_newline_free(#[trigger] rest[i]) by {
            assert(rest[i] == insts[i]);
        }
        law_statement_count(rest);
        assert(seq!['\n'].drop_last() =~= Seq::<char>::empty());
        assert(seq!['\n'].last() == '\n');
        assert(count_newlines(Seq::<char>::empty()) == 0);
        assert(count_newlines(seq!['\n']) == 1);
        lemma_count_add(tikz_text(rest) + seq!['\n'], statement(last));
        lemma_count_add(tikz_text(rest), seq!['\n']);
    }
}

proof fn lemma_count_add(a: Seq<char>, b: Seq<char>)
    ensures
        count_newlines(a + b) == count_newlines(a) + count_newlines(b),
    decreases b.len(),
{
    if b.len() > 0 {
        assert((a + b).drop_last() =~= a + b.drop_last());
        lemma_count_add(a, b.drop_last());
    } else {
        assert(a + b =~= a);
    }
}

proof fn lemma_count_free(s: Seq<char>)
    requires
        newline_free(s),
    ensures
        count_newlines(s) == 0,
    decreases s.len(),
{
    if s.len() > 0 {
        lemma_count_free(s.drop_last());
    }
}

proof fn lemma_concat_free(a: Seq<char>, b: Seq<char>)
    requires
        newline_free(a),
        newline_free(b),
    ensures
        newline_free(a + b),
{
    assert forall|i: int| 0 <= i < (a + b).len() implies (a + b)[i] != '\n' by {
        if i >= a.len() {
            assert((a + b)[i] == b[i - a.len()]);
        }
    }
}

proof fn lemma_nat_text_free(n: nat)
    ensures
        newline_free(nat_text(n)),
    decreases n,
{
    if n >= 10 {
        lemma_nat_text_free(n / 10);
        lemma_concat_free(nat_text(n / 10), seq![digit_char(n % 10)]);
        assert(nat_text(n) =~= nat_text(n / 10) + seq![digit_char(n % 10)]);
    }
}

proof fn lemma_fixed_text_free(n: nat, w: nat)
    ensures
        newline_free(fixed_text(n, w)),
    decreases w,
{
    if w > 0 {
        lemma_fixed_text_free(n / 10, (w - 1) as nat);
        lemma_concat_free(fixed_text(n / 10, (w - 1) as nat), seq![digit_char(n % 10)]);
        assert(fixed_text(n, w) =~= fixed_text(n / 10, (w - 1) as nat) + seq![digit_char(n % 10)]);
    }
}

proof fn lemma_decimal_text_free(d: Decimal)
    ensures
        newline_free(decimal_text(d)),
{
    let ip = d.units as nat / d.denom();
    let fp = d.units as nat % d.denom();
    let (f, w) = crate::decimal::trim_zeros(fp, d.scale as nat);
    let sign: Seq<char> = if d.negative { seq!['-'] } else { seq![] };
    lemma_nat_text_free(ip);
    lemma_fixed_text_free(f, w);
    lemma_concat_free(sign, nat_text(ip));
    lemma_concat_free(seq!['.'], fixed_text(f, w));
    let frac: Seq<char> = if w == 0 { seq![] } else { seq!['.'] + fixed_text(f, w) };
    lemma_concat_free(sign + nat_text(ip), frac);
}

proof fn lemma_statement_newline_free(inst: InstView)
    requires
        names_newline_free(inst),
    ensures
        newline_free(statement(inst)),
{
    reveal_strlit("\\node[draw, circle] (");
    reveal_strlit(") at (");
    reveal_strlit("\\hsize, ");
    reveal_strlit("\\hsize) {");
    reveal_strlit("};");
    reveal_strlit("\\draw (");
    reveal_strlit(") to (");
    reveal_strlit(");");
    match inst {
        InstView::Node { x, y, name } => {
            lemma_decimal_text_free(x);
            lemma_decimal_text_free(y.spec_neg());
            let p1 = "\\node[draw, circle] ("@ + name;
            lemma_concat_free("\\node[draw, circle] ("@, name);
            let p2 = p1 + ") at ("@;
            lemma_concat_free(p1, ") at ("@);
            let p3 = p2 + decimal_text(x);
            lemma_concat_free(p2, decimal_text(x));
            let p4 = p3 + "\\hsize, "@;
            lemma_concat_free(p3, "\\hsize, "@);
            let p5 = p4 + decimal_text(y.spec_neg());
            lemma_concat_free(p4, decimal_text(y.spec_neg()));
            let p6 = p5 + "\\hsize) {"@;
            lemma_concat_free(p5, "\\hsize) {"@);
            let p7 = p6 + name;
            lemma_concat_free(p6, name);
            lemma_concat_free(p7, "};"@);
        },
        InstView::Edge { from, to } => {
            let p1 = "\\draw ("@ + from;
            lemma_concat_free("\\draw ("@, from);
            let p2 = p1 + ") to ("@;
            lemma_concat_free(p1, ") to ("@);
            let p3 = p2 + to;
            lemma_concat_free(p2, to);
            lemma_concat_free(p3, ");"@);
        },
    }
}

/// Each added instruction puts its statement at the end of the text, after
/// a newline unless it is the first; nothing before it changes.
pub proof fn law_each_call_appends(insts: Seq<InstView>, inst: InstView)
    ensures
        tikz_text(insts.push(inst)) == if insts.len() == 0 {
            statement(inst)
        } else {
            tikz_text(insts) + seq!['\n'] + statement(inst)
        },
{
    lemma_text_push(insts, inst);
}

/// A node at `x == 1` and `y == aspect_ratio` lies on the canvas: both
/// bounds are inclusive, whatever the aspect ratio.
pub proof fn law_boundary_accepted(aspect_ratio: Decimal, x: Decimal, y: Decimal)
    requires
        aspect_ratio.wf(),
        x.wf(),
        y.wf(),
        x.same_value(Decimal::spec_one()),
        y.same_value(aspect_ratio),
    ensures
        node_fits(x, y, aspect_ratio),
{
}

/// A node with `x` above `1`, or `y` above the aspect ratio, lies off the
/// canvas, however small the excess.
pub proof fn law_boundary_rejected(aspect_ratio: Decimal, x: Decimal, y: Decimal)
    requires
        Decimal::spec_one().spec_lt(x) || aspect_ratio.spec_lt(y),
    ensures
        !node_fits(x, y, aspect_ratio),
{
}

/// An edge between any two names, placed or not, keeps the painter
/// well formed and its statement closes the text verbatim.
pub proof fn law_edges_unchecked(p: PainterView, from: Seq<char>, to: Seq<char>)
    requires
        p.wf(),
    ensures
        (PainterView { insts: p.insts.push(InstView::Edge { from, to }), ..p }).wf(),
        ({
            let t = tikz_text(p.insts.push(InstView::Edge { from, to }));
            let s = "\\draw ("@ + from + ") to ("@ + to + ");"@;
            t.len() >= s.len() && t.subrange(t.len() - s.len(), t.len() as int) == s
        }),
{
    let e = InstView::Edge { from, to };
    let q = PainterView { insts: p.insts.push(e), ..p };
    assert forall|i: int| 0 <= i < q.insts.len() implies crate::painter::inst_fits(
        #[trigger] q.insts[i],
        q.aspect_ratio,
    ) by {
        if i < p.insts.len() {
            assert(q.insts[i] == p.insts[i]);
        }
    }
    lemma_text_push(p.insts, e);
    let t = tikz_text(p.insts.push(e));
    let s = statement(e);
    if p.insts.len() == 0 {
        assert(t.subrange(0, t.len() as int) =~= t);
    } else {
        assert(t.subrange(t.len() - s.len(), t.len() as int) =~= s);
    }
}

/// An empty painter writes no text at all.
pub proof fn law_empty_text(p: PainterView)
    requires
        p.insts.len() == 0,
    ensures
        p.text().len() == 0,
{
}

} // verus!
