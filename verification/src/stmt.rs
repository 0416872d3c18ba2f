//! The statement nodes of the syntax tree and their flattening into
//! three-address code: `begin` names the label already placed before a
//! statement, `after` the label that will follow it, and the enclosing
//! loop's exit label threads down to any `break` inside.
use vstd::prelude::*;
use crate::tokens::{Token, TokenV, token_text};
use crate::types::{Type, TypeV, bool_type, type_eq, type_is_numeric};
use crate::expr::{
    AccessOp, EGen, ExprV, Expression, IdentV, Identifier, etyp, eprint, gen_s, red_s, jmp_s,
    wf_expr,
};
use crate::inter::{
    NameGen, bump_label, emit, emit_goto, emit_label, emit_text, goto_line, label_text, new_label,
};
use crate::text::push_char;

verus! {

/// The mathematical shape of a statement node.
pub enum StmtV {
    Null,
    Assign { id: IdentV, expr: Box<ExprV> },
    AssignArray { id: IdentV, index: Box<ExprV>, expr: Box<ExprV> },
    Sequence { head: Box<StmtV>, tail: Box<StmtV> },
    If { cond: Box<ExprV>, body: Box<StmtV> },
    IfElse { cond: Box<ExprV>, true_stmt: Box<StmtV>, false_stmt: Box<StmtV> },
    While { cond: Box<ExprV>, body: Box<StmtV> },
    DoWhile { cond: Box<ExprV>, body: Box<StmtV> },
    Break,
}

/// The empty statement.
#[derive(Debug)]
pub struct NullStmt {}

/// An assignment to a plain identifier.
#[derive(Debug)]
pub struct AssignStmt {
    pub id: Box<Identifier>,
    pub expr: Box<Expression>,
}

/// An assignment to an array element.
#[derive(Debug)]
pub struct AssingArrayStmt {
    pub id: Box<Identifier>,
    pub index: Box<Expression>,
    pub expr: Box<Expression>,
}

/// Two statements in sequence.
#[derive(Debug)]
pub struct StmtSeq {
    pub head: Box<Statement>,
    pub tail: Box<Statement>,
}

/// A conditional without an else branch.
#[derive(Debug)]
pub struct IfStmt {
    pub cond: Box<Expression>,
    pub body: Box<Statement>,
}

/// A conditional with both branches.
#[derive(Debug)]
pub struct ElseStmt {
    pub cond: Box<Expression>,
    pub true_stmt: Box<Statement>,
    pub false_stmt: Box<Statement>,
}

/// A while loop.
#[derive(Debug)]
pub struct WhileStmt {
    pub cond: Box<Expression>,
    pub body: Box<Statement>,
}

/// A do-while loop.
#[derive(Debug)]
pub struct DoStmt {
    pub cond: Box<Expression>,
    pub body: Box<Statement>,
}

/// A break out of the nearest enclosing loop.
#[derive(Debug)]
pub struct BreakStmt {}

/// A statement node: one closed sum over all node kinds.
#[derive(Debug)]
pub enum Statement {
    Null(NullStmt),
    Assign(AssignStmt),
    AssignArray(AssingArrayStmt),
    Sequence(StmtSeq),
    If(IfStmt),
    IfElse(ElseStmt),
    While(WhileStmt),
    DoWhile(DoStmt),
    Break(BreakStmt),
}

impl View for Statement {
    type V = StmtV;

    open spec fn view(&self) -> StmtV
        decreases self,
    {
        match self {
            Statement::Null(_) => StmtV::Null,
            Statement::Assign(a) => StmtV::Assign {
                id: (*a.id)@,
                expr: Box::new((*a.expr).view()),
            },
            Statement::AssignArray(a) => StmtV::AssignArray {
                id: (*a.id)@,
                index: Box::new((*a.index).view()),
                expr: Box::new((*a.expr).view()),
            },
            Statement::Sequence(s) => StmtV::Sequence {
                head: Box::new((*s.head).view()),
                tail: Box::new((*s.tail).view()),
            },
            Statement::If(i) => StmtV::If {
                cond: Box::new((*i.cond).view()),
                body: Box::new((*i.body).view()),
            },
            Statement::IfElse(e) => StmtV::IfElse {
                cond: Box::new((*e.cond).view()),
                true_stmt: Box::new((*e.true_stmt).view()),
                false_stmt: Box::new((*e.false_stmt).view()),
            },
            Statement::While(w) => StmtV::While {
                cond: Box::new((*w.cond).view()),
                body: Box::new((*w.body).view()),
            },
            Statement::DoWhile(d) => StmtV::DoWhile {
                cond: Box::new((*d.cond).view()),
                body: Box::new((*d.body).view()),
            },
            Statement::Break(_) => StmtV::Break,
        }
    }
}

/// Well-formedness of a statement: every expression under it is
/// well-formed.
pub open spec fn wf_stmt(s: StmtV) -> bool
    decreases s,
{
    match s {
        StmtV::Null => true,
        StmtV::Assign { id: _, expr } => wf_expr(*expr),
        StmtV::AssignArray { id: _, index, expr } => wf_expr(*index) && wf_expr(*expr),
        StmtV::Sequence { head, tail } => wf_stmt(*head) && wf_stmt(*tail),
        StmtV::If { cond, body } => wf_expr(*cond) && wf_stmt(*body),
        StmtV::IfElse { cond, true_stmt, false_stmt } => wf_expr(*cond) && wf_stmt(*true_stmt)
            && wf_stmt(*false_stmt),
        StmtV::While { cond, body } => wf_expr(*cond) && wf_stmt(*body),
        StmtV::DoWhile { cond, body } => wf_expr(*cond) && wf_stmt(*body),
        StmtV::Break => true,
    }
}

/// What statement generation produces: whether it succeeded, the text
/// emitted up to success or failure, and the allocator afterwards. The one
/// generation-time failure is a `break` with no enclosing loop.
pub struct SOut {
    pub ok: bool,
    pub text: Seq<char>,
    pub g: NameGen,
}

/// What `generate` does for each statement, with `begin` the label already
/// placed before it, `after` the label placed after it, and `enc` the
/// enclosing loop's exit label (0 when there is none).
pub open spec fn sgen_s(s: StmtV, begin: i64, after: i64, enc: i64, g: NameGen) -> SOut
    decreases s,
{
    match s {
        StmtV::Null => SOut { ok: true, text: Seq::empty(), g },
        StmtV::Assign { id, expr } => {
            let x = gen_s(*expr, g);
            SOut { ok: true, text: x.text + emit_text(token_text(id.id) + " = "@ + x.pr), g: x.g }
        },
        StmtV::AssignArray { id, index, expr } => {
            let i = red_s(*index, g);
            let e = red_s(*expr, i.g);
            SOut {
                ok: true,
                text: i.text + e.text + emit_text(
                    token_text(id.id) + " [ "@ + i.pr + " ] = "@ + e.pr,
                ),
                g: e.g,
            }
        },
        StmtV::Sequence { head, tail } => {
            if *head is Null {
                sgen_s(*tail, begin, after, enc, g)
            } else if *tail is Null {
                sgen_s(*head, begin, after, enc, g)
            } else {
                let l = g.labels;
                let g1 = bump_label(g);
                let h = sgen_s(*head, begin, l, enc, g1);
                if !h.ok {
                    SOut { ok: false, text: h.text, g: h.g }
                } else {
                    let t = sgen_s(*tail, l, after, enc, h.g);
                    SOut { ok: t.ok, text: h.text + label_text(l) + t.text, g: t.g }
                }
            }
        },
        StmtV::If { cond, body } => {
            let c = jmp_s(*cond, 0, after, g);
            let l = c.g.labels;
            let g2 = bump_label(c.g);
            let bo = sgen_s(*body, l, after, enc, g2);
            SOut { ok: bo.ok, text: c.text + label_text(l) + bo.text, g: bo.g }
        },
        StmtV::IfElse { cond, true_stmt, false_stmt } => {
            let lthen = g.labels;
            let g1 = bump_label(g);
            let lelse = g1.labels;
            let g2 = bump_label(g1);
            let c = jmp_s(*cond, 0, lelse, g2);
            let t = sgen_s(*true_stmt, lthen, after, enc, c.g);
            if !t.ok {
                SOut { ok: false, text: c.text + label_text(lthen) + t.text, g: t.g }
            } else {
                let f = sgen_s(*false_stmt, lelse, after, enc, t.g);
                SOut {
                    ok: f.ok,
                    text: c.text + label_text(lthen) + t.text + goto_line(after) + label_text(
                        lelse,
                    ) + f.text,
                    g: f.g,
                }
            }
        },
        StmtV::While { cond, body } => {
            let c = jmp_s(*cond, 0, after, g);
            let l = c.g.labels;
            let g2 = bump_label(c.g);
            let bo = sgen_s(*body, l, begin, after, g2);
            if !bo.ok {
                SOut { ok: false, text: c.text + label_text(l) + bo.text, g: bo.g }
            } else {
                SOut {
                    ok: true,
                    text: c.text + label_text(l) + bo.text + goto_line(begin),
                    g: bo.g,
                }
            }
        },
        StmtV::DoWhile { cond, body } => {
            let l = g.labels;
            let g1 = bump_label(g);
            let bo = sgen_s(*body, begin, l, after, g1);
            if !bo.ok {
                SOut { ok: false, text: bo.text, g: bo.g }
            } else {
                let c = jmp_s(*cond, begin, 0, bo.g);
                SOut { ok: true, text: bo.text + label_text(l) + c.text, g: c.g }
            }
        },
        StmtV::Break => {
            if enc == 0 {
                SOut { ok: false, text: Seq::empty(), g }
            } else {
                SOut { ok: true, text: goto_line(enc), g }
            }
        },
    }
}

/// Whether two types may stand on the two sides of an array-element
/// assignment: no arrays, and either equal types or two numeric ones; the
/// answer carries the right-hand type.
pub open spec fn check_types_s(tleft: TypeV, tright: TypeV) -> Option<TypeV> {
    if tleft is Array || tright is Array {
        None
    } else if type_eq(tleft, tright) || (type_is_numeric(tleft) && type_is_numeric(tright)) {
        Some(tright)
    } else {
        None
    }
}

/// Decides `check_types_s`.
pub fn check_types(tleft: &Type, tright: &Type) -> (r: Option<Type>)
    ensures
        (r is Some) == (check_types_s(tleft@, tright@) is Some),
        r is Some ==> r.unwrap()@ == check_types_s(tleft@, tright@).unwrap(),
{
    if let Type::Array { .. } = tleft {
        return None;
    }
    if let Type::Array { .. } = tright {
        return None;
    }
    if crate::types::types_equal(tleft, tright) || (tleft.is_numeric() && tright.is_numeric()) {
        return Some(tright.duplicate());
    }
    None
}

impl NullStmt {
    /// The empty statement.
    pub fn new() -> (r: NullStmt) {
        NullStmt {  }
    }

    /// The empty statement as a statement node.
    pub fn new_box() -> (r: Box<Statement>)
        ensures
            r@ == StmtV::Null,
    {
        Box::new(Statement::Null(NullStmt::new()))
    }
}

impl AssignStmt {
    /// An assignment; the two sides must agree on being numeric and on
    /// being boolean.
    pub fn new(id: Box<Identifier>, expr: Box<Expression>) -> (r: Result<AssignStmt, String>)
        ensures
            match r {
                Ok(a) => assign_compatible(id@.typ, etyp(expr@)) && a@ == (StmtV::Assign {
                    id: id@,
                    expr: Box::new(expr@),
                }),
                Err(m) => !assign_compatible(id@.typ, etyp(expr@)) && m@ == "Type Error"@,
            },
    {
        let idt = id.typ();
        let ext = expr.typ();
        if idt.is_numeric() && !ext.is_numeric() || !idt.is_numeric() && ext.is_numeric() {
            return Err("Type Error".to_owned());
        }
        let bt = Type::boolean();
        let id_bool = crate::types::types_equal(&idt, &bt);
        let ex_bool = crate::types::types_equal(&ext, &bt);
        if id_bool && !ex_bool || !id_bool && ex_bool {
            return Err("Type Error".to_owned());
        }
        Ok(AssignStmt { id, expr })
    }

    /// As `new`, yielding a statement node.
    pub fn new_box(id: Box<Identifier>, expr: Box<Expression>) -> (r: Result<
        Box<Statement>,
        String,
    >)
        ensures
            match r {
                Ok(a) => assign_compatible(id@.typ, etyp(expr@)) && a@ == (StmtV::Assign {
                    id: id@,
                    expr: Box::new(expr@),
                }),
                Err(m) => !assign_compatible(id@.typ, etyp(expr@)) && m@ == "Type Error"@,
            },
    {
        let a = AssignStmt::new(id, expr)?;
        Ok(Box::new(Statement::Assign(a)))
    }
}

/// Whether the two sides of a plain assignment agree: both or neither
/// numeric, and both or neither boolean.
pub open spec fn assign_compatible(idt: TypeV, ext: TypeV) -> bool {
    (type_is_numeric(idt) == type_is_numeric(ext)) && (type_eq(idt, bool_type()) == type_eq(
        ext,
        bool_type(),
    ))
}

impl AssingArrayStmt {
    /// An array-element assignment; the element and value types must pass
    /// `check_types_s`.
    pub fn new(access: Box<AccessOp>, expr: Box<Expression>) -> (r: Result<AssingArrayStmt, String>)
        ensures
            match r {
                Ok(a) => check_types_s(access.typ@, etyp(expr@)) is Some && a@
                    == (StmtV::AssignArray {
                    id: access.array@,
                    index: Box::new(access.index@),
                    expr: Box::new(expr@),
                }),
                Err(m) => check_types_s(access.typ@, etyp(expr@)) is None && m@ == "Type Error"@,
            },
    {
        let at = access.typ.duplicate();
        let et = expr.typ();
        if check_types(&at, &et).is_none() {
            return Err("Type Error".to_owned());
        }
        let a = *access;
        Ok(AssingArrayStmt { id: a.array, index: a.index, expr })
    }

    /// As `new`, yielding a statement node.
    pub fn new_box(access: Box<AccessOp>, expr: Box<Expression>) -> (r: Result<
        Box<Statement>,
        String,
    >)
        ensures
            match r {
                Ok(a) => check_types_s(access.typ@, etyp(expr@)) is Some && a@
                    == (StmtV::AssignArray {
                    id: access.array@,
                    index: Box::new(access.index@),
                    expr: Box::new(expr@),
                }),
                Err(m) => check_types_s(access.typ@, etyp(expr@)) is None && m@ == "Type Error"@,
            },
    {
        let a = AssingArrayStmt::new(access, expr)?;
        Ok(Box::new(Statement::AssignArray(a)))
    }
}

impl StmtSeq {
    /// Two statements in sequence.
    pub fn new(head: Box<Statement>, tail: Box<Statement>) -> (r: StmtSeq)
        ensures
            r@ == (StmtV::Sequence { head: Box::new(head@), tail: Box::new(tail@) }),
    {
        StmtSeq { head, tail }
    }

    /// As `new`, yielding a statement node.
    pub fn new_box(head: Box<Statement>, tail: Box<Statement>) -> (r: Box<Statement>)
        ensures
            r@ == (StmtV::Sequence { head: Box::new(head@), tail: Box::new(tail@) }),
    {
        Box::new(Statement::Sequence(StmtSeq::new(head, tail)))
    }
}

impl View for StmtSeq {
    type V = StmtV;

    open spec fn view(&self) -> StmtV {
        StmtV::Sequence { head: Box::new((*self.head).view()), tail: Box::new((*self.tail).view()) }
    }
}

impl View for AssignStmt {
    type V = StmtV;

    open spec fn view(&self) -> StmtV {
        StmtV::Assign { id: (*self.id)@, expr: Box::new((*self.expr).view()) }
    }
}

impl View for AssingArrayStmt {
    type V = StmtV;

    open spec fn view(&self) -> StmtV {
        StmtV::AssignArray {
            id: (*self.id)@,
            index: Box::new((*self.index).view()),
            expr: Box::new((*self.expr).view()),
        }
    }
}

impl IfStmt {
    /// A conditional without an else branch; the condition must be
    /// boolean.
    pub fn new(cond: Box<Expression>, body: Box<Statement>) -> (r: Result<IfStmt, String>)
        ensures
            match r {
                Ok(i) => type_eq(etyp(cond@), bool_type()) && i@ == (StmtV::If {
                    cond: Box::new(cond@),
                    body: Box::new(body@),
                }),
                Err(m) => !type_eq(etyp(cond@), bool_type()) && m@
                    == "If condition should be of bool type"@,
            },
    {
        let ct = cond.typ();
        let bt = Type::boolean();
        if !crate::types::types_equal(&ct, &bt) {
            return Err("If condition should be of bool type".to_owned());
        }
        Ok(IfStmt { cond, body })
    }

    /// As `new`, yielding a statement node.
    pub fn new_box(cond: Box<Expression>, body: Box<Statement>) -> (r: Result<Box<Statement>, String>)
        ensures
            match r {
                Ok(i) => type_eq(etyp(cond@), bool_type()) && i@ == (StmtV::If {
                    cond: Box::new(cond@),
                    body: Box::new(body@),
                }),
                Err(m) => !type_eq(etyp(cond@), bool_type()) && m@
                    == "If condition should be of bool type"@,
            },
    {
        let i = IfStmt::new(cond, body)?;
        Ok(Box::new(Statement::If(i)))
    }
}

impl View for IfStmt {
    type V = StmtV;

    open spec fn view(&self) -> StmtV {
        StmtV::If { cond: Box::new((*self.cond).view()), body: Box::new((*self.body).view()) }
    }
}

impl ElseStmt {
    /// A conditional with both branches; the condition must be boolean.
    pub fn new(cond: Box<Expression>, true_stmt: Box<Statement>, false_stmt: Box<Statement>) -> (r:
        Result<ElseStmt, String>)
        ensures
            match r {
                Ok(e) => type_eq(etyp(cond@), bool_type()) && e@ == (StmtV::IfElse {
                    cond: Box::new(cond@),
                    true_stmt: Box::new(true_stmt@),
                    false_stmt: Box::new(false_stmt@),
                }),
                Err(m) => !type_eq(etyp(cond@), bool_type()) && m@
                    == "If condition should be of bool type"@,
            },
    {
        let ct = cond.typ();
        let bt = Type::boolean();
        if !crate::types::types_equal(&ct, &bt) {
            return Err("If condition should be of bool type".to_owned());
        }
        Ok(ElseStmt { cond, true_stmt, false_stmt })
    }

    /// As `new`, yielding a statement node.
    pub fn new_box(cond: Box<Expression>, true_stmt: Box<Statement>, false_stmt: Box<Statement>)
        -> (r: Result<Box<Statement>, String>)
        ensures
            match r {
                Ok(e) => type_eq(etyp(cond@), bool_type()) && e@ == (StmtV::IfElse {
                    cond: Box::new(cond@),
                    true_stmt: Box::new(true_stmt@),
                    false_stmt: Box::new(false_stmt@),
                }),
                Err(m) => !type_eq(etyp(cond@), bool_type()) && m@
                    == "If condition should be of bool type"@,
            },
    {
        let e = ElseStmt::new(cond, true_stmt, false_stmt)?;
        Ok(Box::new(Statement::IfElse(e)))
    }
}

impl View for ElseStmt {
    type V = StmtV;

    open spec fn view(&self) -> StmtV {
        StmtV::IfElse {
            cond: Box::new((*self.cond).view()),
            true_stmt: Box::new((*self.true_stmt).view()),
            false_stmt: Box::new((*self.false_stmt).view()),
        }
    }
}

impl WhileStmt {
    /// A while loop; the condition must be boolean.
    pub fn new(cond: Box<Expression>, body: Box<Statement>) -> (r: Result<WhileStmt, String>)
        ensures
            match r {
                Ok(w) => type_eq(etyp(cond@), bool_type()) && w@ == (StmtV::While {
                    cond: Box::new(cond@),
                    body: Box::new(body@),
                }),
                Err(m) => !type_eq(etyp(cond@), bool_type()) && m@
                    == "While condition should be of bool type"@,
            },
    {
        let ct = cond.typ();
        let bt = Type::boolean();
        if !crate::types::types_equal(&ct, &bt) {
            return Err("While condition should be of bool type".to_owned());
        }
        Ok(WhileStmt { cond, body })
    }

    /// As `new`, yielding a statement node.
    pub fn new_box(cond: Box<Expression>, body: Box<Statement>) -> (r: Result<Box<Statement>, String>)
        ensures
            match r {
                Ok(w) => type_eq(etyp(cond@), bool_type()) && w@ == (StmtV::While {
                    cond: Box::new(cond@),
                    body: Box::new(body@),
                }),
                Err(m) => !type_eq(etyp(cond@), bool_type()) && m@
                    == "While condition should be of bool type"@,
            },
    {
        let w = WhileStmt::new(cond, body)?;
        Ok(Box::new(Statement::While(w)))
    }
}

impl View for WhileStmt {
    type V = StmtV;

    open spec fn view(&self) -> StmtV {
        StmtV::While { cond: Box::new((*self.cond).view()), body: Box::new((*self.body).view()) }
    }
}

impl DoStmt {
    /// A do-while loop; the condition must be boolean.
    pub fn new(cond: Box<Expression>, body: Box<Statement>) -> (r: Result<DoStmt, String>)
        ensures
            match r {
                Ok(d) => type_eq(etyp(cond@), bool_type()) && d@ == (StmtV::DoWhile {
                    cond: Box::new(cond@),
                    body: Box::new(body@),
                }),
                Err(m) => !type_eq(etyp(cond@), bool_type()) && m@
                    == "While condition should be of bool type"@,
            },
    {
        let ct = cond.typ();
        let bt = Type::boolean();
        if !crate::types::types_equal(&ct, &bt) {
            return Err("While condition should be of bool type".to_owned());
        }
        Ok(DoStmt { cond, body })
    }

    /// As `new`, yielding a statement node.
    pub fn new_box(cond: Box<Expression>, body: Box<Statement>) -> (r: Result<Box<Statement>, String>)
        ensures
            match r {
                Ok(d) => type_eq(etyp(cond@), bool_type()) && d@ == (StmtV::DoWhile {
                    cond: Box::new(cond@),
                    body: Box::new(body@),
                }),
                Err(m) => !type_eq(etyp(cond@), bool_type()) && m@
                    == "While condition should be of bool type"@,
            },
    {
        let d = DoStmt::new(cond, body)?;
        Ok(Box::new(Statement::DoWhile(d)))
    }
}

impl View for DoStmt {
    type V = StmtV;

    open spec fn view(&self) -> StmtV {
        StmtV::DoWhile { cond: Box::new((*self.cond).view()), body: Box::new((*self.body).view()) }
    }
}

impl BreakStmt {
    /// A break statement.
    pub fn new() -> (r: BreakStmt) {
        BreakStmt {  }
    }

    /// A break statement as a statement node.
    pub fn new_box() -> (r: Box<Statement>)
        ensures
            r@ == StmtV::Break,
    {
        Box::new(Statement::Break(BreakStmt::new()))
    }
}

impl Statement {
    /// Whether this is the empty statement.
    pub fn is_null(&self) -> (r: bool)
        ensures
            r == (self@ is Null),
    {
        match self {
            Statement::Null(_) => true,
            _ => false,
        }
    }

    /// Flattens this statement into three-address code, exactly as
    /// `sgen_s` states; the one failure is a `break` with no enclosing
    /// loop, which reports itself and leaves the text emitted so far.
    #[verifier::rlimit(100)]
    pub fn generate(&self, b: &mut String, begin: i64, after: i64, enclosing: i64, g: &mut NameGen)
        -> (r: Result<(), String>)
        requires
            wf_stmt(self@),
        ensures
            ({
                let o = sgen_s(self@, begin, after, enclosing, *old(g));
                match r {
                    Ok(_) => o.ok && final(b)@ == old(b)@ + o.text && *final(g) == o.g,
                    Err(m) => !o.ok && m@ == "Unenclosed break"@ && final(b)@ == old(b)@ + o.text
                        && *final(g) == o.g,
                }
            }),
        decreases self,
    {
        let ghost b0 = b@;
        let ghost g0 = *g;
        match self {
            Statement::Null(_) => Ok(()),
            Statement::Assign(a) => {
                let x = (*a.expr).generate(b, g)?;
                let mut line = a.id.to_text();
                line.append(" = ");
                x.push_text(&mut line);
                emit(b, line.as_str());
                proof {
                    assert(line@ =~= token_text(a.id@.id) + " = "@ + gen_s(a.expr@, g0).pr);
                    assert(b@ =~= b0 + sgen_s(self@, begin, after, enclosing, g0).text);
                }
                Ok(())
            },
            Statement::AssignArray(a) => {
                let idx = (*a.index).reduce(b, g)?;
                let v = (*a.expr).reduce(b, g)?;
                let mut line = a.id.to_text();
                line.append(" [ ");
                idx.push_text(&mut line);
                line.append(" ] = ");
                v.push_text(&mut line);
                emit(b, line.as_str());
                proof {
                    let i = red_s(a.index@, g0);
                    let e = red_s(a.expr@, i.g);
                    assert(line@ =~= token_text(a.id@.id) + " [ "@ + i.pr + " ] = "@ + e.pr);
                    assert(b@ =~= b0 + sgen_s(self@, begin, after, enclosing, g0).text);
                }
                Ok(())
            },
            Statement::Sequence(s) => {
                if (*s.head).is_null() {
                    return (*s.tail).generate(b, begin, after, enclosing, g);
                }
                if (*s.tail).is_null() {
                    return (*s.head).generate(b, begin, after, enclosing, g);
                }
                let label = new_label(g);
                (*s.head).generate(b, begin, label, enclosing, g)?;
                emit_label(b, label);
                match (*s.tail).generate(b, label, after, enclosing, g) {
                    Ok(()) => {
                        proof {
                            assert(b@ =~= b0 + sgen_s(self@, begin, after, enclosing, g0).text);
                        }
                        Ok(())
                    },
                    Err(m) => {
                        proof {
                            assert(b@ =~= b0 + sgen_s(self@, begin, after, enclosing, g0).text);
                        }
                        Err(m)
                    },
                }
            },
            Statement::If(i) => {
                (*i.cond).jumps(b, 0, after, g)?;
                let label = new_label(g);
                emit_label(b, label);
                match (*i.body).generate(b, label, after, enclosing, g) {
                    Ok(()) => {
                        proof {
                            assert(b@ =~= b0 + sgen_s(self@, begin, after, enclosing, g0).text);
                        }
                        Ok(())
                    },
                    Err(m) => {
                        proof {
                            assert(b@ =~= b0 + sgen_s(self@, begin, after, enclosing, g0).text);
                        }
                        Err(m)
                    },
                }
            },
            Statement::IfElse(e) => {
                let label_if = new_label(g);
                let label_else = new_label(g);
                (*e.cond).jumps(b, 0, label_else, g)?;
                emit_label(b, label_if);
                match (*e.true_stmt).generate(b, label_if, after, enclosing, g) {
                    Ok(()) => {},
                    Err(m) => {
                        proof {
                            assert(b@ =~= b0 + sgen_s(self@, begin, after, enclosing, g0).text);
                        }
                        return Err(m);
                    },
                }
                emit_goto(b, after);
                emit_label(b, label_else);
                match (*e.false_stmt).generate(b, label_else, after, enclosing, g) {
                    Ok(()) => {
                        proof {
                            assert(b@ =~= b0 + sgen_s(self@, begin, after, enclosing, g0).text);
                        }
                        Ok(())
                    },
                    Err(m) => {
                        proof {
                            assert(b@ =~= b0 + sgen_s(self@, begin, after, enclosing, g0).text);
                        }
                        Err(m)
                    },
                }
            },
            Statement::While(w) => {
                (*w.cond).jumps(b, 0, after, g)?;
                let label = new_label(g);
                emit_label(b, label);
                match (*w.body).generate(b, label, begin, after, g) {
                    Ok(()) => {},
                    Err(m) => {
                        proof {
                            assert(b@ =~= b0 + sgen_s(self@, begin, after, enclosing, g0).text);
                        }
                        return Err(m);
                    },
                }
                emit_goto(b, begin);
                proof {
                    assert(b@ =~= b0 + sgen_s(self@, begin, after, enclosing, g0).text);
                }
                Ok(())
            },
            Statement::DoWhile(d) => {
                let label = new_label(g);
                match (*d.body).generate(b, begin, label, after, g) {
                    Ok(()) => {},
                    Err(m) => {
                        proof {
                            assert(b@ =~= b0 + sgen_s(self@, begin, after, enclosing, g0).text);
                        }
                        return Err(m);
                    },
                }
                emit_label(b, label);
                (*d.cond).jumps(b, begin, 0, g)?;
                proof {
                    assert(b@ =~= b0 + sgen_s(self@, begin, after, enclosing, g0).text);
                }
                Ok(())
            },
            Statement::Break(_) => {
                if enclosing == 0 {
                    return Err("Unenclosed break".to_owned());
                }
                emit_goto(b, enclosing);
                Ok(())
            },
        }
    }
}

/// Sequencing with the empty statement changes nothing: at the level of
/// emitted text and of the allocator, a sequence whose head or tail is the
/// empty statement generates exactly what the other part generates.
pub proof fn lemma_seq_identity(x: StmtV, begin: i64, after: i64, enc: i64, g: NameGen)
    ensures
        sgen_s(
            StmtV::Sequence { head: Box::new(StmtV::Null), tail: Box::new(x) },
            begin,
            after,
            enc,
            g,
        ) == sgen_s(x, begin, after, enc, g),
        sgen_s(
            StmtV::Sequence { head: Box::new(x), tail: Box::new(StmtV::Null) },
            begin,
            after,
            enc,
            g,
        ) == sgen_s(x, begin, after, enc, g),
{
}

} // verus!
