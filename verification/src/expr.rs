//! The expression nodes of the syntax tree, their typing rules, and the two
//! complementary code-generation modes: value generation, which reduces an
//! expression to an atomic address, and jump-code generation, which branches
//! to supplied true and false labels.
use vstd::prelude::*;
use crate::tokens::{Tag, Token, TokenV, token_eq, token_tag, token_text, true_word, false_word};
use crate::types::{
    Type, TypeV, bool_type, int_type, max_type_s, type_eq, type_is_numeric,
};
use crate::text::{int_text, push_char, push_i64};
use crate::inter::{
    NameGen, bump_label, bump_temp, emit, emit_goto, emit_jumps, emit_label, emit_text, goto_line,
    jumps_text, label_text, new_label, new_temp,
};

verus! {

/// The view of an identifier: its word, its type, and the byte offset of
/// its declaration within the enclosing block.
pub struct IdentV {
    pub id: TokenV,
    pub typ: TypeV,
    pub offset: i32,
}

/// The mathematical shape of an expression node.
pub enum ExprV {
    Constant { token: TokenV, typ: TypeV },
    Identifier(IdentV),
    Temp { typ: TypeV, num: i32 },
    Arithmetic { op: TokenV, typ: TypeV, left: Box<ExprV>, right: Box<ExprV> },
    Unary { op: TokenV, typ: TypeV, rest: Box<ExprV> },
    Access { array: IdentV, index: Box<ExprV>, typ: TypeV },
    Relation { op: TokenV, left: Box<ExprV>, right: Box<ExprV> },
    NotLogic { op: TokenV, expr: Box<ExprV> },
    OrLogic { left: Box<ExprV>, right: Box<ExprV> },
    AndLogic { left: Box<ExprV>, right: Box<ExprV> },
}

/// A literal constant, including the `true` and `false` singletons.
#[derive(Debug)]
pub struct Constant {
    pub token: Token,
    pub typ: Type,
}

/// A declared identifier.
#[derive(Debug)]
pub struct Identifier {
    pub id: Token,
    pub typ: Type,
    pub offset: i32,
}

/// A compiler-generated temporary, printed `t<n>`.
#[derive(Debug)]
pub struct Temp {
    pub typ: Type,
    pub num: i32,
}

/// A binary arithmetic operation; its type is the promotion of its
/// operands' types.
#[derive(Debug)]
pub struct ArithmeticOp {
    pub op: Token,
    pub typ: Type,
    pub left: Box<Expression>,
    pub right: Box<Expression>,
}

/// A unary numeric operation; its type promotes `int` with the operand.
#[derive(Debug)]
pub struct UnaryOp {
    pub op: Token,
    pub typ: Type,
    pub rest: Box<Expression>,
}

/// An array element access `a [ i ]`; the index expression is already
/// scaled to a byte offset.
#[derive(Debug)]
pub struct AccessOp {
    pub array: Box<Identifier>,
    pub index: Box<Expression>,
    pub typ: Type,
}

/// A comparison; operands must share one non-array type, and the result
/// is boolean.
#[derive(Debug)]
pub struct RelationOp {
    pub op: Token,
    pub left: Box<Expression>,
    pub right: Box<Expression>,
}

/// Logical negation of a boolean expression.
#[derive(Debug)]
pub struct NotLogicOp {
    pub op: Token,
    pub expr: Box<Expression>,
}

/// Short-circuit disjunction of two boolean expressions.
#[derive(Debug)]
pub struct OrLogicOp {
    pub left: Box<Expression>,
    pub right: Box<Expression>,
}

/// Short-circuit conjunction of two boolean expressions.
#[derive(Debug)]
pub struct AndLogicOp {
    pub left: Box<Expression>,
    pub right: Box<Expression>,
}

/// An expression node: one closed sum over all node kinds.
#[derive(Debug)]
pub enum Expression {
    Constant(Constant),
    Identifier(Identifier),
    Temp(Temp),
    Arithmetic(ArithmeticOp),
    Unary(UnaryOp),
    Access(AccessOp),
    Relation(RelationOp),
    NotLogic(NotLogicOp),
    OrLogic(OrLogicOp),
    AndLogic(AndLogicOp),
}

impl View for Identifier {
    type V = IdentV;

    open spec fn view(&self) -> IdentV {
        IdentV { id: self.id@, typ: self.typ@, offset: self.offset }
    }
}

impl View for Expression {
    type V = ExprV;

    open spec fn view(&self) -> ExprV
        decreases self,
    {
        match self {
            Expression::Constant(c) => ExprV::Constant { token: c.token@, typ: c.typ@ },
            Expression::Identifier(i) => ExprV::Identifier(i@),
            Expression::Temp(t) => ExprV::Temp { typ: t.typ@, num: t.num },
            Expression::Arithmetic(a) => ExprV::Arithmetic {
                op: a.op@,
                typ: a.typ@,
                left: Box::new((*a.left).view()),
                right: Box::new((*a.right).view()),
            },
            Expression::Unary(u) => ExprV::Unary {
                op: u.op@,
                typ: u.typ@,
                rest: Box::new((*u.rest).view()),
            },
            Expression::Access(a) => ExprV::Access {
                array: (*a.array)@,
                index: Box::new((*a.index).view()),
                typ: a.typ@,
            },
            Expression::Relation(r) => ExprV::Relation {
                op: r.op@,
                left: Box::new((*r.left).view()),
                right: Box::new((*r.right).view()),
            },
            Expression::NotLogic(n) => ExprV::NotLogic {
                op: n.op@,
                expr: Box::new((*n.expr).view()),
            },
            Expression::OrLogic(o) => ExprV::OrLogic {
                left: Box::new((*o.left).view()),
                right: Box::new((*o.right).view()),
            },
            Expression::AndLogic(a) => ExprV::AndLogic {
                left: Box::new((*a.left).view()),
                right: Box::new((*a.right).view()),
            },
        }
    }
}

impl View for Constant {
    type V = ExprV;

    open spec fn view(&self) -> ExprV {
        ExprV::Constant { token: self.token@, typ: self.typ@ }
    }
}

/// The static type of an expression: boolean for comparisons and logic,
/// the stored type otherwise.
pub open spec fn etyp(e: ExprV) -> TypeV {
    match e {
        ExprV::Constant { token: _, typ } => typ,
        ExprV::Identifier(i) => i.typ,
        ExprV::Temp { typ, num: _ } => typ,
        ExprV::Arithmetic { op: _, typ, left: _, right: _ } => typ,
        ExprV::Unary { op: _, typ, rest: _ } => typ,
        ExprV::Access { array: _, index: _, typ } => typ,
        ExprV::Relation { .. } => bool_type(),
        ExprV::NotLogic { .. } => bool_type(),
        ExprV::OrLogic { .. } => bool_type(),
        ExprV::AndLogic { .. } => bool_type(),
    }
}

/// The printed form of an expression, as emission writes it.
pub open spec fn eprint(e: ExprV) -> Seq<char>
    decreases e,
{
    match e {
        ExprV::Constant { token, typ: _ } => token_text(token),
        ExprV::Identifier(i) => token_text(i.id),
        ExprV::Temp { typ: _, num } => seq!['t'] + int_text(num as int),
        ExprV::Arithmetic { op, typ: _, left, right } => eprint(*left) + seq![' ']
            + token_text(op) + seq![' '] + eprint(*right),
        ExprV::Unary { op, typ: _, rest } => token_text(op) + seq![' '] + eprint(*rest),
        ExprV::Access { array, index, typ: _ } => token_text(array.id) + seq![' ', '[', ' ']
            + eprint(*index) + seq![' ', ']'],
        ExprV::Relation { op, left, right } => eprint(*left) + seq![' '] + token_text(op)
            + seq![' '] + eprint(*right),
        ExprV::NotLogic { op, expr } => token_text(op) + seq![' '] + eprint(*expr),
        ExprV::OrLogic { left, right } => eprint(*left) + seq![' ', '|', '|', ' ']
            + eprint(*right),
        ExprV::AndLogic { left, right } => eprint(*left) + seq![' ', '&', '&', ' ']
            + eprint(*right),
    }
}

/// Well-formedness: the typing invariants that the constructors establish
/// and code generation relies on.
pub open spec fn wf_expr(e: ExprV) -> bool
    decreases e,
{
    match e {
        ExprV::Constant { .. } => true,
        ExprV::Identifier(_) => true,
        ExprV::Temp { .. } => true,
        ExprV::Arithmetic { op: _, typ, left, right } => wf_expr(*left) && wf_expr(*right)
            && max_type_s(etyp(*left), etyp(*right)) == Some(typ),
        ExprV::Unary { op: _, typ, rest } => wf_expr(*rest) && max_type_s(int_type(), etyp(*rest))
            == Some(typ),
        ExprV::Access { array: _, index, typ: _ } => wf_expr(*index),
        ExprV::Relation { op: _, left, right } => wf_expr(*left) && wf_expr(*right) && type_eq(
            etyp(*left),
            etyp(*right),
        ) && !(etyp(*left) is Array) && !(etyp(*right) is Array),
        ExprV::NotLogic { op, expr } => wf_expr(*expr) && type_eq(etyp(*expr), bool_type())
            && token_tag(op) == 33,
        ExprV::OrLogic { left, right } => wf_expr(*left) && wf_expr(*right) && type_eq(
            etyp(*left),
            bool_type(),
        ) && type_eq(etyp(*right), bool_type()),
        ExprV::AndLogic { left, right } => wf_expr(*left) && wf_expr(*right) && type_eq(
            etyp(*left),
            bool_type(),
        ) && type_eq(etyp(*right), bool_type()),
    }
}

/// Whether a constant is the boolean `true` singleton.
pub open spec fn is_true_const(e: ExprV) -> bool {
    match e {
        ExprV::Constant { token, typ } => token_eq(token, true_word()) && type_eq(
            typ,
            bool_type(),
        ),
        _ => false,
    }
}

/// Whether a constant is the boolean `false` singleton.
pub open spec fn is_false_const(e: ExprV) -> bool {
    match e {
        ExprV::Constant { token, typ } => token_eq(token, false_word()) && type_eq(
            typ,
            bool_type(),
        ),
        _ => false,
    }
}

/// The number of nodes in an expression, the measure that code generation
/// recurses on.
pub open spec fn esize(e: ExprV) -> nat
    decreases e,
{
    match e {
        ExprV::Constant { .. } => 1,
        ExprV::Identifier(_) => 1,
        ExprV::Temp { .. } => 1,
        ExprV::Arithmetic { op: _, typ: _, left, right } => 1 + esize(*left) + esize(*right),
        ExprV::Unary { op: _, typ: _, rest } => 1 + esize(*rest),
        ExprV::Access { array: _, index, typ: _ } => 1 + esize(*index),
        ExprV::Relation { op: _, left, right } => 1 + esize(*left) + esize(*right),
        ExprV::NotLogic { op: _, expr } => 1 + esize(*expr),
        ExprV::OrLogic { left, right } => 1 + esize(*left) + esize(*right),
        ExprV::AndLogic { left, right } => 1 + esize(*left) + esize(*right),
    }
}

/// The recursion rank of jump-code generation on one node.
pub open spec fn jmp_rank(e: ExprV) -> int {
    if e is Access {
        2
    } else {
        0
    }
}

/// The recursion rank of value generation on one node.
pub open spec fn gen_rank(e: ExprV) -> int {
    if e is Access {
        0
    } else {
        2
    }
}

/// The recursion rank of reduction on one node.
pub open spec fn red_rank(e: ExprV) -> int {
    if e is Access {
        1
    } else {
        3
    }
}

/// What value generation produces: the emitted text, the printed form of
/// the returned node, and the allocator afterwards.
pub struct EGen {
    pub text: Seq<char>,
    pub pr: Seq<char>,
    pub g: NameGen,
}

/// What jump-code generation produces: the emitted text and the allocator
/// afterwards.
pub struct EJump {
    pub text: Seq<char>,
    pub g: NameGen,
}

/// The true/false-temporary template that boolean-valued operators use for
/// value generation: branch on the expression, then assign the temporary
/// under the two labels.
pub open spec fn bool_gen_s(e: ExprV, g: NameGen) -> EGen
    decreases esize(e), 1int
        when !(e is Access)
{
    let f = g.labels;
    let g1 = bump_label(g);
    let a = g1.labels;
    let g2 = bump_label(g1);
    let t = g2.temps;
    let g3 = bump_temp(g2);
    let j = jmp_s(e, 0, f, g3);
    let tpr = seq!['t'] + int_text(t as int);
    EGen {
        text: j.text + emit_text(tpr + " = true"@) + goto_line(a) + label_text(f) + emit_text(
            tpr + " = false"@,
        ) + label_text(a),
        pr: tpr,
        g: j.g,
    }
}

/// What `generate` does: leaves stand for themselves; arithmetic and access
/// nodes re-form over reduced children; boolean operators run the
/// true/false-temporary template.
pub open spec fn gen_s(e: ExprV, g: NameGen) -> EGen
    decreases esize(e), gen_rank(e),
{
    match e {
        ExprV::Constant { .. } => EGen { text: Seq::empty(), pr: eprint(e), g },
        ExprV::Identifier(_) => EGen { text: Seq::empty(), pr: eprint(e), g },
        ExprV::Temp { .. } => EGen { text: Seq::empty(), pr: eprint(e), g },
        ExprV::Arithmetic { op, typ: _, left, right } => {
            let l = red_s(*left, g);
            let r = red_s(*right, l.g);
            EGen {
                text: l.text + r.text,
                pr: l.pr + seq![' '] + token_text(op) + seq![' '] + r.pr,
                g: r.g,
            }
        },
        ExprV::Unary { op, typ: _, rest } => {
            let x = red_s(*rest, g);
            EGen { text: x.text, pr: token_text(op) + seq![' '] + x.pr, g: x.g }
        },
        ExprV::Access { array, index, typ: _ } => {
            let i = gen_s(*index, g);
            EGen {
                text: i.text,
                pr: token_text(array.id) + seq![' ', '[', ' '] + i.pr + seq![' ', ']'],
                g: i.g,
            }
        },
        _ => bool_gen_s(e, g),
    }
}

/// What `reduce` does: leaves are already atomic; an operator generates its
/// value and assigns it to a fresh temporary.
pub open spec fn red_s(e: ExprV, g: NameGen) -> EGen
    decreases esize(e), red_rank(e),
{
    match e {
        ExprV::Constant { .. } => EGen { text: Seq::empty(), pr: eprint(e), g },
        ExprV::Identifier(_) => EGen { text: Seq::empty(), pr: eprint(e), g },
        ExprV::Temp { .. } => EGen { text: Seq::empty(), pr: eprint(e), g },
        _ => {
            let x = gen_s(e, g);
            let t = x.g.temps;
            let g2 = bump_temp(x.g);
            let tpr = seq!['t'] + int_text(t as int);
            EGen { text: x.text + emit_text(tpr + " = "@ + x.pr), pr: tpr, g: g2 }
        },
    }
}

/// What `jumps` does: short-circuit branching toward the labels `to` and
/// `from`, with 0 meaning fall through on that side.
pub open spec fn jmp_s(e: ExprV, to: i64, from: i64, g: NameGen) -> EJump
    decreases esize(e), jmp_rank(e),
{
    match e {
        ExprV::Constant { .. } => EJump {
            text: if is_true_const(e) && to != 0 {
                goto_line(to)
            } else if is_false_const(e) && from != 0 {
                goto_line(from)
            } else {
                Seq::empty()
            },
            g,
        },
        ExprV::Identifier(_) => EJump { text: jumps_text(eprint(e), to, from), g },
        ExprV::Temp { .. } => EJump { text: jumps_text(eprint(e), to, from), g },
        ExprV::Arithmetic { .. } => EJump { text: jumps_text(eprint(e), to, from), g },
        ExprV::Unary { .. } => EJump { text: jumps_text(eprint(e), to, from), g },
        ExprV::Access { .. } => {
            let r = red_s(e, g);
            EJump { text: r.text + jumps_text(r.pr, to, from), g: r.g }
        },
        ExprV::Relation { op, left, right } => {
            let l = red_s(*left, g);
            let r = red_s(*right, l.g);
            EJump {
                text: l.text + r.text + jumps_text(
                    l.pr + seq![' '] + token_text(op) + seq![' '] + r.pr,
                    to,
                    from,
                ),
                g: r.g,
            }
        },
        ExprV::NotLogic { op: _, expr } => jmp_s(*expr, from, to, g),
        ExprV::OrLogic { left, right } => {
            let lab = if to != 0 {
                to
            } else {
                g.labels
            };
            let g0 = if to != 0 {
                g
            } else {
                bump_label(g)
            };
            let l = jmp_s(*left, lab, 0, g0);
            let r = jmp_s(*right, to, from, l.g);
            EJump {
                text: l.text + r.text + if to == 0 {
                    label_text(lab)
                } else {
                    Seq::empty()
                },
                g: r.g,
            }
        },
        ExprV::AndLogic { left, right } => {
            let lab = if from != 0 {
                from
            } else {
                g.labels
            };
            let g0 = if from != 0 {
                g
            } else {
                bump_label(g)
            };
            let l = jmp_s(*left, 0, lab, g0);
            let r = jmp_s(*right, to, from, l.g);
            EJump {
                text: l.text + r.text + if from == 0 {
                    label_text(lab)
                } else {
                    Seq::empty()
                },
                g: r.g,
            }
        },
    }
}

impl Constant {
    /// A constant from a number token; the type follows the token, and any
    /// other token is rejected.
    pub fn new(tok: Token) -> (r: Result<Constant, String>)
        ensures
            match r {
                Ok(c) => (tok@ is Integer || tok@ is Real) && c@ == (ExprV::Constant {
                    token: tok@,
                    typ: if tok@ is Integer {
                        int_type()
                    } else {
                        crate::types::float_type()
                    },
                }),
                Err(m) => !(tok@ is Integer) && !(tok@ is Real) && m@ == "Invalid parameter: "@
                    + token_text(tok@),
            },
    {
        match tok {
            Token::Integer(_) => Ok(Constant { token: tok, typ: Type::integer() }),
            Token::Real(_) => Ok(Constant { token: tok, typ: Type::float() }),
            t => {
                let mut m = "Invalid parameter: ".to_owned();
                t.push_text(&mut m);
                Err(m)
            },
        }
    }

    /// As `new`, yielding an expression node.
    pub fn new_box(tok: Token) -> (r: Result<Box<Expression>, String>)
        ensures
            match r {
                Ok(c) => (tok@ is Integer || tok@ is Real) && c@ == (ExprV::Constant {
                    token: tok@,
                    typ: if tok@ is Integer {
                        int_type()
                    } else {
                        crate::types::float_type()
                    },
                }),
                Err(m) => !(tok@ is Integer) && !(tok@ is Real) && m@ == "Invalid parameter: "@
                    + token_text(tok@),
            },
    {
        let c = Constant::new(tok)?;
        Ok(c.boxed())
    }

    /// The integer constant with the given value.
    pub fn integer(value: i64) -> (r: Constant)
        ensures
            r@ == (ExprV::Constant { token: TokenV::Integer(value), typ: int_type() }),
    {
        Constant { token: Token::Integer(value), typ: Type::integer() }
    }

    /// The real constant with the given printed text.
    pub fn float(text: &str) -> (r: Constant)
        ensures
            r@ == (ExprV::Constant {
                token: TokenV::Real(text@),
                typ: crate::types::float_type(),
            }),
    {
        Constant { token: Token::Real(text.to_owned()), typ: Type::float() }
    }

    /// The boolean constant `true`.
    pub fn true_constant() -> (r: Constant)
        ensures
            r@ == (ExprV::Constant { token: true_word(), typ: bool_type() }),
            is_true_const(r@),
    {
        let r = Constant { token: Token::true_token(), typ: Type::boolean() };
        proof {
            crate::tokens::lemma_token_eq_refl(r.token@);
            crate::types::lemma_type_eq_refl(r.typ@);
        }
        r
    }

    /// The boolean constant `false`.
    pub fn false_constant() -> (r: Constant)
        ensures
            r@ == (ExprV::Constant { token: false_word(), typ: bool_type() }),
            is_false_const(r@),
    {
        let r = Constant { token: Token::false_token(), typ: Type::boolean() };
        proof {
            crate::tokens::lemma_token_eq_refl(r.token@);
            crate::types::lemma_type_eq_refl(r.typ@);
        }
        r
    }

    /// This constant as an expression node.
    pub fn boxed(self) -> (r: Box<Expression>)
        ensures
            r@ == self@,
    {
        Box::new(Expression::Constant(self))
    }
}

impl Identifier {
    /// An identifier node for a declaration.
    pub fn new(id: Token, typ: &Type, offset: i32) -> (r: Identifier)
        ensures
            r@ == (IdentV { id: id@, typ: typ@, offset }),
    {
        Identifier { id, typ: typ.duplicate(), offset }
    }

    /// As `new`, boxed for use as an array reference.
    pub fn new_box(id: Token, typ: &Type, offset: i32) -> (r: Box<Identifier>)
        ensures
            r@ == (IdentV { id: id@, typ: typ@, offset }),
    {
        Box::new(Identifier::new(id, typ, offset))
    }

    /// This identifier as an expression node.
    pub fn boxed(self) -> (r: Box<Expression>)
        ensures
            r@ == ExprV::Identifier(self@),
    {
        Box::new(Expression::Identifier(self))
    }

    /// An identifier expression node, built directly.
    pub fn expr_box(id: Token, typ: &Type, offset: i32) -> (r: Box<Expression>)
        ensures
            r@ == ExprV::Identifier(IdentV { id: id@, typ: typ@, offset }),
    {
        Identifier::new(id, typ, offset).boxed()
    }

    /// An exact copy of this identifier.
    pub fn duplicate(&self) -> (r: Identifier)
        ensures
            r@ == self@,
    {
        Identifier { id: self.id.duplicate(), typ: self.typ.duplicate(), offset: self.offset }
    }

    /// The identifier's word.
    pub fn token(&self) -> (r: Token)
        ensures
            r@ == self@.id,
    {
        self.id.duplicate()
    }

    /// The identifier's declared type.
    pub fn typ(&self) -> (r: Type)
        ensures
            r@ == self@.typ,
    {
        self.typ.duplicate()
    }

    /// The identifier's printed form: its lexeme.
    pub fn to_text(&self) -> (r: String)
        ensures
            r@ == token_text(self@.id),
    {
        self.id.to_text()
    }
}

impl Temp {
    /// A fresh temporary of the given type, numbered by the allocator.
    pub fn new(typ: &Type, g: &mut NameGen) -> (r: Temp)
        ensures
            r@ == (ExprV::Temp { typ: typ@, num: old(g).temps }),
            *final(g) == bump_temp(*old(g)),
    {
        let num = new_temp(g);
        Temp { typ: typ.duplicate(), num }
    }

    /// A fresh temporary as an expression node.
    pub fn new_box(typ: &Type, g: &mut NameGen) -> (r: Box<Expression>)
        ensures
            r@ == (ExprV::Temp { typ: typ@, num: old(g).temps }),
            *final(g) == bump_temp(*old(g)),
    {
        Box::new(Expression::Temp(Temp::new(typ, g)))
    }

    /// Puts the temporary counter back to its starting value, as tests do
    /// before each compile.
    pub fn reset_counter(g: &mut NameGen)
        ensures
            final(g).temps == 1,
            final(g).labels == old(g).labels,
    {
        g.temps = 1;
    }
}

impl View for Temp {
    type V = ExprV;

    open spec fn view(&self) -> ExprV {
        ExprV::Temp { typ: self.typ@, num: self.num }
    }
}

impl Constant {
    /// An exact copy of this constant.
    pub fn duplicate(&self) -> (r: Constant)
        ensures
            r@ == self@,
    {
        Constant { token: self.token.duplicate(), typ: self.typ.duplicate() }
    }
}

impl Temp {
    /// An exact copy of this temporary.
    pub fn duplicate(&self) -> (r: Temp)
        ensures
            r@ == self@,
    {
        Temp { typ: self.typ.duplicate(), num: self.num }
    }

    /// The temporary's printed form `t<n>`.
    pub fn to_text(&self) -> (r: String)
        ensures
            r@ == seq!['t'] + int_text(self.num as int),
    {
        let mut s = String::new();
        push_char(&mut s, 't');
        push_i64(&mut s, self.num as i64);
        proof {
            assert(s@ =~= seq!['t'] + int_text(self.num as int));
        }
        s
    }
}

/// Whether both types are the boolean type, the demand the logical
/// operators make of their operands.
pub fn check_booleans(tleft: &Type, tright: &Type) -> (r: bool)
    ensures
        r == (type_eq(tleft@, bool_type()) && type_eq(tright@, bool_type())),
{
    let bt = Type::boolean();
    crate::types::types_equal(tleft, &bt) && crate::types::types_equal(tright, &bt)
}

impl ArithmeticOp {
    /// A binary arithmetic node; the operand types must promote, and the
    /// node takes the promoted type.
    pub fn new(tok: Token, left: Box<Expression>, right: Box<Expression>) -> (r: Result<
        ArithmeticOp,
        String,
    >)
        ensures
            match r {
                Ok(a) => max_type_s(etyp(left@), etyp(right@)) is Some && a@
                    == (ExprV::Arithmetic {
                    op: tok@,
                    typ: max_type_s(etyp(left@), etyp(right@)).unwrap(),
                    left: Box::new(left@),
                    right: Box::new(right@),
                }),
                Err(m) => max_type_s(etyp(left@), etyp(right@)) is None && m@ == "Type error"@,
            },
    {
        let lt = left.typ();
        let rt = right.typ();
        let typ = match Type::max_type(&lt, &rt) {
            Some(t) => t,
            None => {
                return Err("Type error".to_owned());
            },
        };
        Ok(ArithmeticOp { op: tok, typ, left, right })
    }

    /// As `new`, yielding an expression node.
    pub fn new_box(tok: Token, left: Box<Expression>, right: Box<Expression>) -> (r: Result<
        Box<Expression>,
        String,
    >)
        ensures
            match r {
                Ok(a) => max_type_s(etyp(left@), etyp(right@)) is Some && a@
                    == (ExprV::Arithmetic {
                    op: tok@,
                    typ: max_type_s(etyp(left@), etyp(right@)).unwrap(),
                    left: Box::new(left@),
                    right: Box::new(right@),
                }),
                Err(m) => max_type_s(etyp(left@), etyp(right@)) is None && m@ == "Type error"@,
            },
    {
        let ao = ArithmeticOp::new(tok, left, right)?;
        Ok(Box::new(Expression::Arithmetic(ao)))
    }
}

impl View for ArithmeticOp {
    type V = ExprV;

    open spec fn view(&self) -> ExprV {
        ExprV::Arithmetic {
            op: self.op@,
            typ: self.typ@,
            left: Box::new((*self.left).view()),
            right: Box::new((*self.right).view()),
        }
    }
}

impl UnaryOp {
    /// A unary numeric node; the operand must promote with `int`.
    pub fn new(op: Token, rest: Box<Expression>) -> (r: Result<UnaryOp, String>)
        ensures
            match r {
                Ok(u) => max_type_s(int_type(), etyp(rest@)) is Some && u@ == (ExprV::Unary {
                    op: op@,
                    typ: max_type_s(int_type(), etyp(rest@)).unwrap(),
                    rest: Box::new(rest@),
                }),
                Err(m) => max_type_s(int_type(), etyp(rest@)) is None && m@ == "Type Error"@,
            },
    {
        let it = Type::integer();
        let rt = rest.typ();
        let typ = match Type::max_type(&it, &rt) {
            Some(t) => t,
            None => {
                return Err("Type Error".to_owned());
            },
        };
        Ok(UnaryOp { op, typ, rest })
    }

    /// As `new`, yielding an expression node.
    pub fn new_box(op: Token, rest: Box<Expression>) -> (r: Result<Box<Expression>, String>)
        ensures
            match r {
                Ok(u) => max_type_s(int_type(), etyp(rest@)) is Some && u@ == (ExprV::Unary {
                    op: op@,
                    typ: max_type_s(int_type(), etyp(rest@)).unwrap(),
                    rest: Box::new(rest@),
                }),
                Err(m) => max_type_s(int_type(), etyp(rest@)) is None && m@ == "Type Error"@,
            },
    {
        let uo = UnaryOp::new(op, rest)?;
        Ok(Box::new(Expression::Unary(uo)))
    }
}

impl View for UnaryOp {
    type V = ExprV;

    open spec fn view(&self) -> ExprV {
        ExprV::Unary { op: self.op@, typ: self.typ@, rest: Box::new((*self.rest).view()) }
    }
}

impl AccessOp {
    /// An array access node over an array identifier, a byte-offset index
    /// expression, and the element type.
    pub fn new(array: Box<Identifier>, index: Box<Expression>, typ: &Type) -> (r: AccessOp)
        ensures
            r@ == (ExprV::Access { array: array@, index: Box::new(index@), typ: typ@ }),
    {
        AccessOp { array, index, typ: typ.duplicate() }
    }

    /// As `new`, yielding an expression node.
    pub fn new_box(array: Box<Identifier>, index: Box<Expression>, typ: &Type) -> (r: Box<
        Expression,
    >)
        ensures
            r@ == (ExprV::Access { array: array@, index: Box::new(index@), typ: typ@ }),
    {
        Box::new(Expression::Access(AccessOp::new(array, index, typ)))
    }
}

impl View for AccessOp {
    type V = ExprV;

    open spec fn view(&self) -> ExprV {
        ExprV::Access {
            array: (*self.array)@,
            index: Box::new((*self.index).view()),
            typ: self.typ@,
        }
    }
}

impl AccessOp {
    /// This access as an expression node.
    pub fn boxed(self) -> (r: Box<Expression>)
        ensures
            r@ == self@,
    {
        Box::new(Expression::Access(self))
    }
}

impl RelationOp {
    /// A comparison node; the operands must share one non-array type.
    pub fn new(op: Token, left: Box<Expression>, right: Box<Expression>) -> (r: Result<
        RelationOp,
        String,
    >)
        ensures
            match r {
                Ok(rel) => type_eq(etyp(left@), etyp(right@)) && !(etyp(left@) is Array) && !(etyp(
                    right@,
                ) is Array) && rel@ == (ExprV::Relation {
                    op: op@,
                    left: Box::new(left@),
                    right: Box::new(right@),
                }),
                Err(m) => !(type_eq(etyp(left@), etyp(right@)) && !(etyp(left@) is Array) && !(
                etyp(right@) is Array)) && m@ == "Type error"@,
            },
    {
        let lt = left.typ();
        let rt = right.typ();
        if !crate::types::types_equal(&lt, &rt) {
            return Err("Type error".to_owned());
        }
        if let Type::Array { .. } = &lt {
            return Err("Type error".to_owned());
        }
        if let Type::Array { .. } = &rt {
            return Err("Type error".to_owned());
        }
        Ok(RelationOp { op, left, right })
    }

    /// As `new`, yielding an expression node.
    pub fn new_box(op: Token, left: Box<Expression>, right: Box<Expression>) -> (r: Result<
        Box<Expression>,
        String,
    >)
        ensures
            match r {
                Ok(rel) => type_eq(etyp(left@), etyp(right@)) && !(etyp(left@) is Array) && !(etyp(
                    right@,
                ) is Array) && rel@ == (ExprV::Relation {
                    op: op@,
                    left: Box::new(left@),
                    right: Box::new(right@),
                }),
                Err(m) => !(type_eq(etyp(left@), etyp(right@)) && !(etyp(left@) is Array) && !(
                etyp(right@) is Array)) && m@ == "Type error"@,
            },
    {
        let ro = RelationOp::new(op, left, right)?;
        Ok(Box::new(Expression::Relation(ro)))
    }
}

impl View for RelationOp {
    type V = ExprV;

    open spec fn view(&self) -> ExprV {
        ExprV::Relation {
            op: self.op@,
            left: Box::new((*self.left).view()),
            right: Box::new((*self.right).view()),
        }
    }
}

impl NotLogicOp {
    /// A logical negation node; the operand must be boolean and the
    /// operator must be the `!` byte.
    pub fn new(op: Token, expr: Box<Expression>) -> (r: Result<NotLogicOp, String>)
        ensures
            match r {
                Ok(n) => type_eq(etyp(expr@), bool_type()) && token_tag(op@) == 33 && n@
                    == (ExprV::NotLogic { op: op@, expr: Box::new(expr@) }),
                Err(m) => (!type_eq(etyp(expr@), bool_type()) && m@ == "Type error"@) || (type_eq(
                    etyp(expr@),
                    bool_type(),
                ) && token_tag(op@) != 33 && m@ == "Lexer error"@),
            },
    {
        let et = expr.typ();
        let bt = Type::boolean();
        if !crate::types::types_equal(&et, &bt) {
            return Err("Type error".to_owned());
        }
        if op.tag() != 33 {
            return Err("Lexer error".to_owned());
        }
        Ok(NotLogicOp { op, expr })
    }

    /// As `new`, yielding an expression node.
    pub fn new_box(op: Token, expr: Box<Expression>) -> (r: Result<Box<Expression>, String>)
        ensures
            match r {
                Ok(n) => type_eq(etyp(expr@), bool_type()) && token_tag(op@) == 33 && n@
                    == (ExprV::NotLogic { op: op@, expr: Box::new(expr@) }),
                Err(m) => (!type_eq(etyp(expr@), bool_type()) && m@ == "Type error"@) || (type_eq(
                    etyp(expr@),
                    bool_type(),
                ) && token_tag(op@) != 33 && m@ == "Lexer error"@),
            },
    {
        let nl = NotLogicOp::new(op, expr)?;
        Ok(Box::new(Expression::NotLogic(nl)))
    }
}

impl View for NotLogicOp {
    type V = ExprV;

    open spec fn view(&self) -> ExprV {
        ExprV::NotLogic { op: self.op@, expr: Box::new((*self.expr).view()) }
    }
}

impl OrLogicOp {
    /// A short-circuit disjunction node; both operands must be boolean.
    pub fn new(left: Box<Expression>, right: Box<Expression>) -> (r: Result<OrLogicOp, String>)
        ensures
            match r {
                Ok(o) => type_eq(etyp(left@), bool_type()) && type_eq(etyp(right@), bool_type())
                    && o@ == (ExprV::OrLogic { left: Box::new(left@), right: Box::new(right@) }),
                Err(m) => !(type_eq(etyp(left@), bool_type()) && type_eq(etyp(right@), bool_type()))
                    && m@ == "Type Error"@,
            },
    {
        let lt = left.typ();
        let rt = right.typ();
        if !check_booleans(&lt, &rt) {
            return Err("Type Error".to_owned());
        }
        Ok(OrLogicOp { left, right })
    }

    /// As `new`, yielding an expression node.
    pub fn new_box(left: Box<Expression>, right: Box<Expression>) -> (r: Result<
        Box<Expression>,
        String,
    >)
        ensures
            match r {
                Ok(o) => type_eq(etyp(left@), bool_type()) && type_eq(etyp(right@), bool_type())
                    && o@ == (ExprV::OrLogic { left: Box::new(left@), right: Box::new(right@) }),
                Err(m) => !(type_eq(etyp(left@), bool_type()) && type_eq(etyp(right@), bool_type()))
                    && m@ == "Type Error"@,
            },
    {
        let ol = OrLogicOp::new(left, right)?;
        Ok(Box::new(Expression::OrLogic(ol)))
    }
}

impl View for OrLogicOp {
    type V = ExprV;

    open spec fn view(&self) -> ExprV {
        ExprV::OrLogic { left: Box::new((*self.left).view()), right: Box::new((*self.right).view()) }
    }
}

impl AndLogicOp {
    /// A short-circuit conjunction node; both operands must be boolean.
    pub fn new(left: Box<Expression>, right: Box<Expression>) -> (r: Result<AndLogicOp, String>)
        ensures
            match r {
                Ok(a) => type_eq(etyp(left@), bool_type()) && type_eq(etyp(right@), bool_type())
                    && a@ == (ExprV::AndLogic { left: Box::new(left@), right: Box::new(right@) }),
                Err(m) => !(type_eq(etyp(left@), bool_type()) && type_eq(etyp(right@), bool_type()))
                    && m@ == "Type Error"@,
            },
    {
        let lt = left.typ();
        let rt = right.typ();
        if !check_booleans(&lt, &rt) {
            return Err("Type Error".to_owned());
        }
        Ok(AndLogicOp { left, right })
    }

    /// As `new`, yielding an expression node.
    pub fn new_box(left: Box<Expression>, right: Box<Expression>) -> (r: Result<
        Box<Expression>,
        String,
    >)
        ensures
            match r {
                Ok(a) => type_eq(etyp(left@), bool_type()) && type_eq(etyp(right@), bool_type())
                    && a@ == (ExprV::AndLogic { left: Box::new(left@), right: Box::new(right@) }),
                Err(m) => !(type_eq(etyp(left@), bool_type()) && type_eq(etyp(right@), bool_type()))
                    && m@ == "Type Error"@,
            },
    {
        let al = AndLogicOp::new(left, right)?;
        Ok(Box::new(Expression::AndLogic(al)))
    }
}

impl View for AndLogicOp {
    type V = ExprV;

    open spec fn view(&self) -> ExprV {
        ExprV::AndLogic {
            left: Box::new((*self.left).view()),
            right: Box::new((*self.right).view()),
        }
    }
}

/// The operator token of an expression node.
pub open spec fn eop(e: ExprV) -> TokenV {
    match e {
        ExprV::Constant { token, typ: _ } => token,
        ExprV::Identifier(i) => i.id,
        ExprV::Temp { .. } => TokenV::Word("t"@, Tag::TEMP),
        ExprV::Arithmetic { op, .. } => op,
        ExprV::Unary { op, .. } => op,
        ExprV::Access { .. } => TokenV::Word("[]"@, Tag::INDEX),
        ExprV::Relation { op, .. } => op,
        ExprV::NotLogic { op, .. } => op,
        ExprV::OrLogic { .. } => TokenV::Word("||"@, Tag::OR),
        ExprV::AndLogic { .. } => TokenV::Word("&&"@, Tag::AND),
    }
}

impl Expression {
    /// The operator token of this node.
    pub fn op(&self) -> (r: Token)
        ensures
            r@ == eop(self@),
    {
        match self {
            Expression::Constant(c) => c.token.duplicate(),
            Expression::Identifier(i) => i.id.duplicate(),
            Expression::Temp(_) => Token::temp_word(),
            Expression::Arithmetic(a) => a.op.duplicate(),
            Expression::Unary(u) => u.op.duplicate(),
            Expression::Access(_) => Token::access_word(),
            Expression::Relation(r) => r.op.duplicate(),
            Expression::NotLogic(n) => n.op.duplicate(),
            Expression::OrLogic(_) => Token::or_word(),
            Expression::AndLogic(_) => Token::and_word(),
        }
    }

    /// The static type of this node.
    pub fn typ(&self) -> (r: Type)
        ensures
            r@ == etyp(self@),
    {
        match self {
            Expression::Constant(c) => c.typ.duplicate(),
            Expression::Identifier(i) => i.typ.duplicate(),
            Expression::Temp(t) => t.typ.duplicate(),
            Expression::Arithmetic(a) => a.typ.duplicate(),
            Expression::Unary(u) => u.typ.duplicate(),
            Expression::Access(a) => a.typ.duplicate(),
            Expression::Relation(_) => Type::boolean(),
            Expression::NotLogic(_) => Type::boolean(),
            Expression::OrLogic(_) => Type::boolean(),
            Expression::AndLogic(_) => Type::boolean(),
        }
    }

    /// Appends this node's printed form to `s`.
    pub fn push_text(&self, s: &mut String)
        ensures
            final(s)@ == old(s)@ + eprint(self@),
        decreases self,
    {
        let ghost s0 = s@;
        match self {
            Expression::Constant(c) => c.token.push_text(s),
            Expression::Identifier(i) => i.id.push_text(s),
            Expression::Temp(t) => {
                push_char(s, 't');
                push_i64(s, t.num as i64);
            },
            Expression::Arithmetic(a) => {
                (*a.left).push_text(s);
                push_char(s, ' ');
                a.op.push_text(s);
                push_char(s, ' ');
                (*a.right).push_text(s);
            },
            Expression::Unary(u) => {
                u.op.push_text(s);
                push_char(s, ' ');
                (*u.rest).push_text(s);
            },
            Expression::Access(a) => {
                a.array.id.push_text(s);
                push_char(s, ' ');
                push_char(s, '[');
                push_char(s, ' ');
                (*a.index).push_text(s);
                push_char(s, ' ');
                push_char(s, ']');
            },
            Expression::Relation(r) => {
                (*r.left).push_text(s);
                push_char(s, ' ');
                r.op.push_text(s);
                push_char(s, ' ');
                (*r.right).push_text(s);
            },
            Expression::NotLogic(n) => {
                n.op.push_text(s);
                push_char(s, ' ');
                (*n.expr).push_text(s);
            },
            Expression::OrLogic(o) => {
                (*o.left).push_text(s);
                push_char(s, ' ');
                push_char(s, '|');
                push_char(s, '|');
                push_char(s, ' ');
                (*o.right).push_text(s);
            },
            Expression::AndLogic(a) => {
                (*a.left).push_text(s);
                push_char(s, ' ');
                push_char(s, '&');
                push_char(s, '&');
                push_char(s, ' ');
                (*a.right).push_text(s);
            },
        }
        proof {
            assert(s@ =~= s0 + eprint(self@));
        }
    }

    /// This node's printed form as a fresh string.
    pub fn to_text(&self) -> (r: String)
        ensures
            r@ == eprint(self@),
    {
        let mut s = String::new();
        self.push_text(&mut s);
        proof {
            assert(s@ =~= eprint(self@));
        }
        s
    }

    /// Value generation: emits whatever side computation the node needs and
    /// returns a node standing for its value, exactly as `gen_s` states.
    pub fn generate(&self, b: &mut String, g: &mut NameGen) -> (r: Result<Box<Expression>, String>)
        requires
            wf_expr(self@),
        ensures
            ({
                let o = gen_s(self@, *old(g));
                match r {
                    Ok(x) => final(b)@ == old(b)@ + o.text && *final(g) == o.g && eprint(x@)
                        == o.pr && etyp(x@) == etyp(self@) && wf_expr(x@),
                    Err(_) => false,
                }
            }),
        decreases esize(self@), gen_rank(self@),
    {
        let ghost b0 = b@;
        let ghost g0 = *g;
        match self {
            Expression::Constant(c) => Ok(c.duplicate().boxed()),
            Expression::Identifier(i) => Ok(i.duplicate().boxed()),
            Expression::Temp(t) => Ok(Box::new(Expression::Temp(t.duplicate()))),
            Expression::Arithmetic(a) => {
                let lr = (*a.left).reduce(b, g)?;
                let rr = (*a.right).reduce(b, g)?;
                let node = ArithmeticOp::new(a.op.duplicate(), lr, rr)?;
                proof {
                    assert(b@ =~= b0 + gen_s(self@, g0).text);
                }
                Ok(Box::new(Expression::Arithmetic(node)))
            },
            Expression::Unary(u) => {
                let rest = (*u.rest).reduce(b, g)?;
                let node = UnaryOp::new(u.op.duplicate(), rest)?;
                proof {
                    assert(b@ =~= b0 + gen_s(self@, g0).text);
                }
                Ok(Box::new(Expression::Unary(node)))
            },
            Expression::Access(a) => {
                let idx = (*a.index).generate(b, g)?;
                let node = AccessOp::new(Box::new(a.array.duplicate()), idx, &a.typ);
                proof {
                    assert(b@ =~= b0 + gen_s(self@, g0).text);
                    assert(eprint(node@) =~= gen_s(self@, g0).pr);
                }
                Ok(Box::new(Expression::Access(node)))
            },
            _ => {
                let f = new_label(g);
                let a_lab = new_label(g);
                let btyp = self.typ();
                let tmp = Temp::new(&btyp, g);
                let ghost g3 = *g;
                self.jumps(b, 0, f, g)?;
                let ghost jt = jmp_s(self@, 0, f, g3);
                proof {
                    assert(b@ =~= b0 + jt.text);
                    assert(*g == jt.g);
                }
                let mut line = tmp.to_text();
                line.append(" = true");
                emit(b, line.as_str());
                emit_goto(b, a_lab);
                emit_label(b, f);
                let mut line2 = tmp.to_text();
                line2.append(" = false");
                emit(b, line2.as_str());
                emit_label(b, a_lab);
                proof {
                    let o = gen_s(self@, g0);
                    assert(o == bool_gen_s(self@, g0));
                    assert(line@ =~= seq!['t'] + int_text(tmp.num as int) + " = true"@);
                    assert(line2@ =~= seq!['t'] + int_text(tmp.num as int) + " = false"@);
                    assert(b@ =~= b0 + jt.text + emit_text(line@) + goto_line(a_lab) + label_text(
                        f,
                    ) + emit_text(line2@) + label_text(a_lab));
                    assert(b@ =~= b0 + o.text);
                }
                Ok(Box::new(Expression::Temp(tmp)))
            },
        }
    }

    /// Reduction to an atomic address: a leaf stands for itself, and an
    /// operator's value lands in a fresh temporary, exactly as `red_s`
    /// states.
    pub fn reduce(&self, b: &mut String, g: &mut NameGen) -> (r: Result<Box<Expression>, String>)
        requires
            wf_expr(self@),
        ensures
            ({
                let o = red_s(self@, *old(g));
                match r {
                    Ok(x) => final(b)@ == old(b)@ + o.text && *final(g) == o.g && eprint(x@)
                        == o.pr && etyp(x@) == etyp(self@) && wf_expr(x@),
                    Err(_) => false,
                }
            }),
        decreases esize(self@), red_rank(self@),
    {
        let ghost b0 = b@;
        let ghost g0 = *g;
        match self {
            Expression::Constant(c) => Ok(c.duplicate().boxed()),
            Expression::Identifier(i) => Ok(i.duplicate().boxed()),
            Expression::Temp(t) => Ok(Box::new(Expression::Temp(t.duplicate()))),
            _ => {
                let x = self.generate(b, g)?;
                let styp = self.typ();
                let tmp = Temp::new(&styp, g);
                let mut line = tmp.to_text();
                line.append(" = ");
                x.push_text(&mut line);
                emit(b, line.as_str());
                proof {
                    assert(line@ =~= seq!['t'] + int_text(tmp.num as int) + " = "@ + gen_s(
                        self@,
                        g0,
                    ).pr);
                    assert(b@ =~= b0 + red_s(self@, g0).text);
                }
                Ok(Box::new(Expression::Temp(tmp)))
            },
        }
    }

    /// Jump-code generation: short-circuit branching toward the labels
    /// `to` and `from`, exactly as `jmp_s` states; 0 means fall through.
    pub fn jumps(&self, b: &mut String, to: i64, from: i64, g: &mut NameGen) -> (r: Result<
        (),
        String,
    >)
        requires
            wf_expr(self@),
        ensures
            ({
                let o = jmp_s(self@, to, from, *old(g));
                match r {
                    Ok(_) => final(b)@ == old(b)@ + o.text && *final(g) == o.g,
                    Err(_) => false,
                }
            }),
        decreases esize(self@), jmp_rank(self@),
    {
        let ghost b0 = b@;
        let ghost g0 = *g;
        match self {
            Expression::Constant(c) => {
                let tt = Token::true_token();
                let bt = Type::boolean();
                if crate::tokens::token_equal(&c.token, &tt) && crate::types::types_equal(
                    &c.typ,
                    &bt,
                ) {
                    if to != 0 {
                        emit_goto(b, to);
                    }
                } else {
                    let ft = Token::false_token();
                    if crate::tokens::token_equal(&c.token, &ft) && crate::types::types_equal(
                        &c.typ,
                        &bt,
                    ) && from != 0 {
                        emit_goto(b, from);
                    }
                }
                proof {
                    assert(b@ =~= b0 + jmp_s(self@, to, from, g0).text);
                }
                Ok(())
            },
            Expression::Identifier(i) => {
                let txt = i.to_text();
                emit_jumps(b, txt.as_str(), to, from);
                Ok(())
            },
            Expression::Temp(t) => {
                let txt = t.to_text();
                emit_jumps(b, txt.as_str(), to, from);
                Ok(())
            },
            Expression::Arithmetic(_) => {
                let txt = self.to_text();
                emit_jumps(b, txt.as_str(), to, from);
                Ok(())
            },
            Expression::Unary(_) => {
                let txt = self.to_text();
                emit_jumps(b, txt.as_str(), to, from);
                Ok(())
            },
            Expression::Access(_) => {
                let ra = self.reduce(b, g)?;
                let txt = ra.to_text();
                emit_jumps(b, txt.as_str(), to, from);
                proof {
                    assert(b@ =~= b0 + jmp_s(self@, to, from, g0).text);
                }
                Ok(())
            },
            Expression::Relation(rel) => {
                let lr = (*rel.left).reduce(b, g)?;
                let rr = (*rel.right).reduce(b, g)?;
                let mut txt = lr.to_text();
                push_char(&mut txt, ' ');
                rel.op.push_text(&mut txt);
                push_char(&mut txt, ' ');
                rr.push_text(&mut txt);
                emit_jumps(b, txt.as_str(), to, from);
                proof {
                    assert(txt@ =~= red_s(rel.left@, g0).pr + seq![' '] + token_text(rel.op@)
                        + seq![' '] + red_s(rel.right@, red_s(rel.left@, g0).g).pr);
                    assert(b@ =~= b0 + jmp_s(self@, to, from, g0).text);
                }
                Ok(())
            },
            Expression::NotLogic(n) => {
                let r = (*n.expr).jumps(b, from, to, g);
                r
            },
            Expression::OrLogic(o) => {
                let label = if to != 0 {
                    to
                } else {
                    new_label(g)
                };
                (*o.left).jumps(b, label, 0, g)?;
                (*o.right).jumps(b, to, from, g)?;
                if to == 0 {
                    emit_label(b, label);
                }
                proof {
                    assert(b@ =~= b0 + jmp_s(self@, to, from, g0).text);
                }
                Ok(())
            },
            Expression::AndLogic(a) => {
                let label = if from != 0 {
                    from
                } else {
                    new_label(g)
                };
                (*a.left).jumps(b, 0, label, g)?;
                (*a.right).jumps(b, to, from, g)?;
                if from == 0 {
                    emit_label(b, label);
                }
                proof {
                    assert(b@ =~= b0 + jmp_s(self@, to, from, g0).text);
                }
                Ok(())
            },
        }
    }
}

} // verus!
