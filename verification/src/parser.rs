//! The recursive-descent parser: a single-token look-ahead over the
//! scanner, a nested symbol-table stack, and the program driver that emits
//! three-address code for a parsed block.
use vstd::prelude::*;
use crate::tokens::{Tag, Token, TokenV, token_tag, token_text};
use crate::types::{
    Type, TypeV, bad_type_token, bool_type, max_type_s, type_eq, type_of_token, type_width,
};
use crate::expr::{
    AccessOp, AndLogicOp, ArithmeticOp, Constant, ExprV, Expression, IdentV, Identifier,
    NotLogicOp, OrLogicOp, RelationOp, UnaryOp, etyp, wf_expr,
};
use crate::stmt::{
    AssignStmt, AssingArrayStmt, BreakStmt, DoStmt, ElseStmt, IfStmt, NullStmt, Statement,
    StmtSeq, StmtV, WhileStmt, assign_compatible, check_types_s, sgen_s, wf_stmt,
};
use crate::lexer::{LexV, Lexer, scan_s};
use crate::inter::{NameGen, bump_label, emit_label, label_text, new_label};
use crate::text::{dec_digits, push_u64, str_eq};

verus! {

/// One scope frame: declarations in order, later entries shadowing
/// earlier ones of the same name.
pub type FrameV = Seq<(Seq<char>, IdentV)>;

/// The looked-up declaration of a name within one frame, the latest
/// insertion winning.
pub open spec fn frame_get(f: FrameV, key: Seq<char>) -> Option<IdentV>
    decreases f.len(),
{
    if f.len() == 0 {
        None
    } else if f.last().0 == key {
        Some(f.last().1)
    } else {
        frame_get(f.drop_last(), key)
    }
}

/// The looked-up declaration of a name, innermost scope first.
pub open spec fn env_get(e: Seq<FrameV>, key: Seq<char>) -> Option<IdentV>
    decreases e.len(),
{
    if e.len() == 0 {
        None
    } else {
        match frame_get(e.last(), key) {
            Some(i) => Some(i),
            None => env_get(e.drop_last(), key),
        }
    }
}

/// The nested symbol table: a stack of scope frames; the root frame is
/// never popped.
pub struct Environment {
    pub scopes: Vec<Vec<(String, Identifier)>>,
}

impl View for Environment {
    type V = Seq<FrameV>;

    open spec fn view(&self) -> Seq<FrameV> {
        Seq::new(self.scopes@.len(), |i: int| Seq::new(self.scopes@[i]@.len(), |j: int|
            (self.scopes@[i]@[j].0@, self.scopes@[i]@[j].1@)))
    }
}

impl Environment {
    /// A table with just the root scope.
    pub fn empty() -> (r: Environment)
        ensures
            r@ =~~= seq![Seq::<(Seq<char>, IdentV)>::empty()],
    {
        let mut scopes: Vec<Vec<(String, Identifier)>> = Vec::new();
        scopes.push(Vec::new());
        Environment { scopes }
    }

    /// Opens a scope under the given table.
    pub fn new(prev: Environment) -> (r: Environment)
        ensures
            r@ =~~= prev@ + seq![Seq::<(Seq<char>, IdentV)>::empty()],
    {
        let ghost p0 = prev@;
        let mut e = prev;
        e.scopes.push(Vec::new());
        proof {
            assert(e@ =~~= p0 + seq![Seq::<(Seq<char>, IdentV)>::empty()]);
        }
        e
    }

    /// Closes the innermost scope; the root scope cannot be closed.
    pub fn pop(&mut self) -> (r: Result<(), String>)
        ensures
            match r {
                Ok(_) => old(self)@.len() > 1 && final(self)@ =~~= old(self)@.drop_last(),
                Err(m) => old(self)@.len() <= 1 && final(self)@ == old(self)@ && m@
                    == "Popping empty environment"@,
            },
    {
        if self.scopes.len() <= 1 {
            return Err("Popping empty environment".to_owned());
        }
        self.scopes.pop();
        Ok(())
    }

    /// Records a declaration in the innermost scope.
    pub fn put(&mut self, key: &str, value: Identifier)
        requires
            old(self)@.len() > 0,
        ensures
            final(self)@ =~~= old(self)@.drop_last() + seq![
                old(self)@.last() + seq![(key@, value@)]
            ],
    {
        let ghost e0 = self@;
        let k = key.to_owned();
        let mut frame = self.scopes.pop().unwrap();
        frame.push((k, value));
        self.scopes.push(frame);
        proof {
            assert(self@ =~~= e0.drop_last() + seq![e0.last() + seq![(key@, value@)]]);
        }
    }

    /// Looks a name up, innermost scope first; an unknown name reports
    /// itself.
    pub fn get(&self, key: &str) -> (r: Result<Identifier, String>)
        ensures
            match r {
                Ok(id) => env_get(self@, key@) == Some(id@),
                Err(m) => env_get(self@, key@) is None && m@ == "Undeclared identifier "@ + key@,
            },
    {
        let mut i = self.scopes.len();
        proof {
            assert(self@.take(i as int) =~= self@);
        }
        while i > 0
            invariant
                i <= self.scopes@.len(),
                env_get(self@, key@) == env_get(self@.take(i as int), key@),
            decreases i,
        {
            i = i - 1;
            let frame = &self.scopes[i];
            let mut j = frame.len();
            proof {
                assert(self@[i as int].take(j as int) =~= self@[i as int]);
            }
            while j > 0
                invariant
                    j <= frame@.len(),
                    frame@ == self.scopes@[i as int]@,
                    i < self.scopes@.len(),
                    env_get(self@, key@) == env_get(self@.take(i as int + 1), key@),
                    frame_get(self@[i as int], key@) == frame_get(
                        self@[i as int].take(j as int),
                        key@,
                    ),
                decreases j,
            {
                j = j - 1;
                if str_eq(frame[j].0.as_str(), key) {
                    let id = frame[j].1.duplicate();
                    proof {
                        assert(self@[i as int].take((j + 1) as int).last() == (
                            frame@[j as int].0@,
                            frame@[j as int].1@,
                        ));
                        assert(frame_get(self@[i as int], key@) == Some(id@));
                        assert(self@.take((i + 1) as int).last() =~= self@[i as int]);
                        assert(env_get(self@.take((i + 1) as int), key@) == Some(id@));
                    }
                    return Ok(id);
                }
                proof {
                    assert(self@[i as int].take((j + 1) as int).drop_last() =~= self@[
                        i as int
                    ].take(j as int));
                }
            }
            proof {
                assert(self@[i as int].take(0) =~= Seq::<(Seq<char>, IdentV)>::empty());
                assert(frame_get(self@[i as int], key@) is None);
                assert(self@.take((i + 1) as int).last() =~= self@[i as int]);
                assert(self@.take((i + 1) as int).drop_last() =~= self@.take(i as int));
            }
        }
        proof {
            assert(self@.take(0) =~= Seq::<FrameV>::empty());
        }
        let mut m = "Undeclared identifier ".to_owned();
        m.append(key);
        Err(m)
    }
}

/// The mathematical state of the parser: the scanner state, the look-ahead
/// token, the symbol table, and the running declaration offset.
pub struct PView {
    pub lex: LexV,
    pub look: TokenV,
    pub env: Seq<FrameV>,
    pub used: i64,
}

/// A parser state is well formed when its scanner is within its input
/// and the symbol table still has its root scope.
pub open spec fn pwf(p: PView) -> bool {
    0 <= p.lex.pos <= p.lex.input.len() && p.env.len() >= 1
}

/// How much scanning work remains in a scanner state: unread bytes count
/// double, a retained look-ahead byte counts once.
pub open spec fn lexm(l: LexV) -> int {
    2 * (l.input.len() - l.pos) + if l.peek != 32 && l.peek != 0 {
        1int
    } else {
        0int
    }
}

/// How much parsing work remains: the scanner's measure, plus one for a
/// look-ahead token that is not yet the end token.
pub open spec fn pm(p: PView) -> int {
    lexm(p.lex) + if token_tag(p.look) != 0xFFFF_FFFFu32 {
        1int
    } else {
        0int
    }
}

/// Skipping whitespace stays within the input and advances whenever bytes
/// remain.
pub proof fn lemma_skip_ws_bounds(l: LexV)
    requires
        0 <= l.pos <= l.input.len(),
    ensures
        ({
            let l2 = crate::lexer::skip_ws_s(l);
            l2.input == l.input && l.pos <= l2.pos <= l.input.len() && (l.pos < l.input.len()
                ==> l2.pos > l.pos) && (l.pos == l.input.len() ==> l2 == crate::lexer::read_s(l))
        }),
    decreases l.input.len() - l.pos,
{
    let l1 = crate::lexer::read_s(l);
    if l1.pos > l.pos {
        if l1.peek == 32 || l1.peek == 9 || l1.peek == 13 {
            lemma_skip_ws_bounds(l1);
        } else if l1.peek == 10 {
            lemma_skip_ws_bounds(
                LexV {
                    input: l1.input,
                    pos: l1.pos,
                    peek: l1.peek,
                    line: vstd::wrapping::u32_specs::wrapping_add(l1.line, 1),
                },
            );
        }
    }
}

/// Accumulating an integer stays within the input and never goes back.
pub proof fn lemma_read_int_bounds(l: LexV, val: i64)
    requires
        0 <= l.pos <= l.input.len(),
    ensures
        ({
            let (v, l2) = crate::lexer::read_int_s(l, val);
            l2.input == l.input && l.pos <= l2.pos <= l.input.len()
        }),
    decreases l.input.len() - l.pos,
{
    let l1 = crate::lexer::read_s(l);
    let v2 = vstd::wrapping::i64_specs::wrapping_add(
        vstd::wrapping::i64_specs::wrapping_mul(val, 10),
        (l.peek - 48) as i64,
    );
    if l1.pos > l.pos && crate::lexer::is_digit(l1.peek) {
        lemma_read_int_bounds(l1, v2);
    }
}

/// Reading fractional digits stays within the input and never goes back.
pub proof fn lemma_read_frac_bounds(l: LexV, digits: Seq<u8>)
    requires
        0 <= l.pos <= l.input.len(),
    ensures
        ({
            let (d, l2) = crate::lexer::read_frac_s(l, digits);
            l2.input == l.input && l.pos <= l2.pos <= l.input.len()
        }),
    decreases l.input.len() - l.pos,
{
    let l1 = crate::lexer::read_s(l);
    if l1.pos > l.pos && crate::lexer::is_digit(l1.peek) {
        lemma_read_frac_bounds(l1, digits + seq![l1.peek]);
    }
}

/// Reading a lexeme stays within the input and never goes back.
pub proof fn lemma_read_ident_bounds(l: LexV, lex: Seq<char>)
    requires
        0 <= l.pos <= l.input.len(),
    ensures
        ({
            let (x, l2) = crate::lexer::read_ident_s(l, lex);
            l2.input == l.input && l.pos <= l2.pos <= l.input.len()
        }),
    decreases l.input.len() - l.pos,
{
    let l1 = crate::lexer::read_s(l);
    let lex2 = lex + seq![l.peek as char];
    if l1.pos > l.pos && crate::lexer::is_alnum(l1.peek) {
        lemma_read_ident_bounds(l1, lex2);
    }
}

/// One scan never increases the remaining work, decreases it whenever it
/// yields a real token, and yields the end token exactly when the token's
/// tag is the end tag.
pub proof fn lemma_scan_measure(l: LexV)
    requires
        0 <= l.pos <= l.input.len(),
    ensures
        ({
            let (t, l2) = scan_s(l);
            l2.input == l.input && 0 <= l2.pos <= l2.input.len() && lexm(l2) <= lexm(l) && (!(
            t is Eof) ==> lexm(l2) < lexm(l)) && ((token_tag(t) == 0xFFFF_FFFFu32) == (t is Eof))
        }),
{
    let (t, l2) = scan_s(l);
    if l.peek != 32 {
    } else {
        let ls = crate::lexer::skip_ws_s(l);
        lemma_skip_ws_bounds(l);
        if ls.peek == 0 {
        } else if ls.peek == 38 || ls.peek == 124 || ls.peek == 61 || ls.peek == 33 || ls.peek
            == 60 || ls.peek == 62 {
        } else if crate::lexer::is_digit(ls.peek) {
            let (val, l3) = crate::lexer::read_int_s(ls, 0);
            lemma_read_int_bounds(ls, 0);
            if l3.peek == 46 {
                lemma_read_frac_bounds(l3, Seq::empty());
            }
        } else if crate::lexer::is_alpha(ls.peek) {
            lemma_read_ident_bounds(ls, Seq::empty());
        }
    }
}

/// The recursive-descent parser itself.
pub struct Parser {
    pub lexer: Lexer,
    pub lookahead: Token,
    pub top: Environment,
    pub used: i64,
}

impl View for Parser {
    type V = PView;

    open spec fn view(&self) -> PView {
        PView { lex: self.lexer@, look: self.lookahead@, env: self.top@, used: self.used }
    }
}

/// The parser state after one more token is scanned into the look-ahead.
pub open spec fn next_s(p: PView) -> PView {
    PView { lex: scan_s(p.lex).1, look: scan_s(p.lex).0, env: p.env, used: p.used }
}

/// The message a failed token match reports.
pub open spec fn syntax_error_msg(line: u32) -> Seq<char> {
    "Syntax error near line "@ + dec_digits(line as nat)
}

/// What matching one expected tag does: on the wrong look-ahead it
/// reports a syntax error at the current line; otherwise it advances.
pub open spec fn match_s(p: PView, tag: u32) -> (Result<(), Seq<char>>, PView) {
    if token_tag(p.look) != tag {
        (Err(syntax_error_msg(p.lex.line)), p)
    } else {
        (Ok(()), next_s(p))
    }
}

/// What parsing one nonterminal yields: the parsed value or an error
/// message, and the parser state afterwards.
pub type PRes<T> = (Result<T, Seq<char>>, PView);

/// What `factor` parses: a parenthesized expression, a number constant,
/// one of the boolean constants, or a possibly subscripted identifier.
pub open spec fn factor_s(p: PView, f: nat) -> PRes<ExprV>
    decreases f,
{
    if f == 0 {
        (Err(Seq::empty()), p)
    } else {
        let tg = token_tag(p.look);
        if tg == 40 {  // '('
            let p1 = next_s(p);
            let (r, p2) = boolean_s(p1, (f - 1) as nat);
            match r {
                Err(e) => (Err(e), p2),
                Ok(ex) => {
                    let (r2, p3) = match_s(p2, 41);  // ')'
                    match r2 {
                        Err(e) => (Err(e), p3),
                        Ok(_) => (Ok(ex), p3),
                    }
                },
            }
        } else if tg == 270 || tg == 272 {  // a number
            match p.look {
                TokenV::Integer(v) => (
                    Ok(
                        ExprV::Constant {
                            token: p.look,
                            typ: crate::types::int_type(),
                        },
                    ),
                    next_s(p),
                ),
                TokenV::Real(t) => (
                    Ok(
                        ExprV::Constant {
                            token: p.look,
                            typ: crate::types::float_type(),
                        },
                    ),
                    next_s(p),
                ),
                _ => (Err("Invalid parameter: "@ + token_text(p.look)), p),
            }
        } else if tg == 274 || tg == 262 {  // `true`, and `false` likewise
            (
                Ok(
                    ExprV::Constant {
                        token: crate::tokens::true_word(),
                        typ: bool_type(),
                    },
                ),
                next_s(p),
            )
        } else if tg == 264 {  // an identifier
            match env_get(p.env, token_text(p.look)) {
                None => (Err("Undeclared identifier "@ + token_text(p.look)), p),
                Some(idv) => {
                    let p1 = next_s(p);
                    if token_tag(p1.look) == 91 {  // '['
                        offset_s(idv, p1, (f - 1) as nat)
                    } else {
                        (Ok(ExprV::Identifier(idv)), p1)
                    }
                },
            }
        } else {
            (Err("Syntax Error"@), p)
        }
    }
}

/// What one subscript step contributes: the element type one level down,
/// and the index scaled by that level's width.
pub open spec fn offset_step(typ: TypeV, index: ExprV) -> Result<(TypeV, ExprV), Seq<char>> {
    match typ {
        TypeV::Array { of, length: _ } => {
            let el = *of;
            let width = ExprV::Constant {
                token: TokenV::Integer(type_width(el) as i64),
                typ: crate::types::int_type(),
            };
            match max_type_s(etyp(index), crate::types::int_type()) {
                None => Err("Type error"@),
                Some(t) => Ok(
                    (
                        el,
                        ExprV::Arithmetic {
                            op: TokenV::Tok(42),
                            typ: t,
                            left: Box::new(index),
                            right: Box::new(width),
                        },
                    ),
                ),
            }
        },
        _ => Err("String error"@),
    }
}

/// What `offset` parses: one or more subscripts after an array
/// identifier, summed into a single byte-offset expression.
pub open spec fn offset_s(id: IdentV, p: PView, f: nat) -> PRes<ExprV>
    decreases f,
{
    if f == 0 {
        (Err(Seq::empty()), p)
    } else {
        let (r1, p1) = match_s(p, 91);  // '['
        match r1 {
            Err(e) => (Err(e), p1),
            Ok(_) => {
                let (r2, p2) = boolean_s(p1, (f - 1) as nat);
                match r2 {
                    Err(e) => (Err(e), p2),
                    Ok(index) => {
                        let (r3, p3) = match_s(p2, 93);  // ']'
                        match r3 {
                            Err(e) => (Err(e), p3),
                            Ok(_) => match offset_step(id.typ, index) {
                                Err(e) => (Err(e), p3),
                                Ok((typ, loc)) => offset_tail_s(id, loc, typ, p3, (f - 1) as nat),
                            },
                        }
                    },
                }
            },
        }
    }
}

/// The remaining subscripts of a multi-dimensional access, each scaled
/// and added onto the running offset expression.
pub open spec fn offset_tail_s(id: IdentV, loc: ExprV, typ: TypeV, p: PView, f: nat) -> PRes<
    ExprV,
>
    decreases f,
{
    if f == 0 {
        (Err(Seq::empty()), p)
    } else if token_tag(p.look) == 91 {  // '['
        let p1 = next_s(p);
        let (r2, p2) = boolean_s(p1, (f - 1) as nat);
        match r2 {
            Err(e) => (Err(e), p2),
            Ok(index) => {
                let (r3, p3) = match_s(p2, 93);  // ']'
                match r3 {
                    Err(e) => (Err(e), p3),
                    Ok(_) => match offset_step(typ, index) {
                        Err(e) => (Err(e), p3),
                        Ok((typ2, t1)) => match max_type_s(etyp(loc), etyp(t1)) {
                            None => (Err("Type error"@), p3),
                            Some(t) => offset_tail_s(
                                id,
                                ExprV::Arithmetic {
                                    op: TokenV::Tok(43),
                                    typ: t,
                                    left: Box::new(loc),
                                    right: Box::new(t1),
                                },
                                typ2,
                                p3,
                                (f - 1) as nat,
                            ),
                        },
                    },
                }
            },
        }
    } else {
        (Ok(ExprV::Access { array: id, index: Box::new(loc), typ }), p)
    }
}

/// What `unary` parses: prefixed minus signs and negations, or a factor.
pub open spec fn unary_s(p: PView, f: nat) -> PRes<ExprV>
    decreases f,
{
    if f == 0 {
        (Err(Seq::empty()), p)
    } else {
        let tg = token_tag(p.look);
        if tg == 45 {  // '-'
            let p1 = next_s(p);
            let (r, p2) = unary_s(p1, (f - 1) as nat);
            match r {
                Err(e) => (Err(e), p2),
                Ok(ex) => match max_type_s(crate::types::int_type(), etyp(ex)) {
                    None => (Err("Type Error"@), p2),
                    Some(t) => (
                        Ok(
                            ExprV::Unary {
                                op: TokenV::Word("-"@, Tag::MINUS),
                                typ: t,
                                rest: Box::new(ex),
                            },
                        ),
                        p2,
                    ),
                },
            }
        } else if tg == 33 {  // '!'
            let tok = p.look;
            let p1 = next_s(p);
            let (r, p2) = unary_s(p1, (f - 1) as nat);
            match r {
                Err(e) => (Err(e), p2),
                Ok(ex) => if !type_eq(etyp(ex), bool_type()) {
                    (Err("Type error"@), p2)
                } else if token_tag(tok) != 33 {
                    (Err("Lexer error"@), p2)
                } else {
                    (Ok(ExprV::NotLogic { op: tok, expr: Box::new(ex) }), p2)
                },
            }
        } else {
            factor_s(p, (f - 1) as nat)
        }
    }
}

/// The multiplicative operators after a first operand.
pub open spec fn mul_tail_s(ex: ExprV, p: PView, f: nat) -> PRes<ExprV>
    decreases f,
{
    if f == 0 {
        (Err(Seq::empty()), p)
    } else {
        let tg = token_tag(p.look);
        if tg == 42 || tg == 47 {  // '*' '/'
            let tok = p.look;
            let p1 = next_s(p);
            let (r, p2) = unary_s(p1, (f - 1) as nat);
            match r {
                Err(e) => (Err(e), p2),
                Ok(right) => match max_type_s(etyp(ex), etyp(right)) {
                    None => (Err("Type error"@), p2),
                    Some(t) => mul_tail_s(
                        ExprV::Arithmetic {
                            op: tok,
                            typ: t,
                            left: Box::new(ex),
                            right: Box::new(right),
                        },
                        p2,
                        (f - 1) as nat,
                    ),
                },
            }
        } else {
            (Ok(ex), p)
        }
    }
}

/// What `term` parses: unary operands joined by `*` and `/`.
pub open spec fn term_s(p: PView, f: nat) -> PRes<ExprV>
    decreases f,
{
    if f == 0 {
        (Err(Seq::empty()), p)
    } else {
        let (r, p1) = unary_s(p, (f - 1) as nat);
        match r {
            Err(e) => (Err(e), p1),
            Ok(ex) => mul_tail_s(ex, p1, (f - 1) as nat),
        }
    }
}

/// The additive operators after a first operand.
pub open spec fn add_tail_s(ex: ExprV, p: PView, f: nat) -> PRes<ExprV>
    decreases f,
{
    if f == 0 {
        (Err(Seq::empty()), p)
    } else {
        let tg = token_tag(p.look);
        if tg == 43 || tg == 45 {  // '+' '-'
            let tok = p.look;
            let p1 = next_s(p);
            let (r, p2) = term_s(p1, (f - 1) as nat);
            match r {
                Err(e) => (Err(e), p2),
                Ok(right) => match max_type_s(etyp(ex), etyp(right)) {
                    None => (Err("Type error"@), p2),
                    Some(t) => add_tail_s(
                        ExprV::Arithmetic {
                            op: tok,
                            typ: t,
                            left: Box::new(ex),
                            right: Box::new(right),
                        },
                        p2,
                        (f - 1) as nat,
                    ),
                },
            }
        } else {
            (Ok(ex), p)
        }
    }
}

/// What `expr` parses: terms joined by `+` and `-`.
pub open spec fn expr_s(p: PView, f: nat) -> PRes<ExprV>
    decreases f,
{
    if f == 0 {
        (Err(Seq::empty()), p)
    } else {
        let (r, p1) = term_s(p, (f - 1) as nat);
        match r {
            Err(e) => (Err(e), p1),
            Ok(ex) => add_tail_s(ex, p1, (f - 1) as nat),
        }
    }
}

/// What a comparison node demands of its operands, as the constructor
/// checks it.
pub open spec fn rel_ok(l: ExprV, r: ExprV) -> bool {
    type_eq(etyp(l), etyp(r)) && !(etyp(l) is Array) && !(etyp(r) is Array)
}

/// What `relation` parses: an arithmetic expression, optionally compared
/// once with `<`, `<=`, `>` or `>=`.
pub open spec fn relation_s(p: PView, f: nat) -> PRes<ExprV>
    decreases f,
{
    if f == 0 {
        (Err(Seq::empty()), p)
    } else {
        let (r, p1) = expr_s(p, (f - 1) as nat);
        match r {
            Err(e) => (Err(e), p1),
            Ok(ex) => {
                let tok = p1.look;
                let tg = token_tag(tok);
                if tg == 60 || tg == 62 || tg == 267 || tg == 263 {  // '<' '>' LE GE
                    let p2 = next_s(p1);
                    let (r2, p3) = expr_s(p2, (f - 1) as nat);
                    match r2 {
                        Err(e) => (Err(e), p3),
                        Ok(right) => if rel_ok(ex, right) {
                            (
                                Ok(
                                    ExprV::Relation {
                                        op: tok,
                                        left: Box::new(ex),
                                        right: Box::new(right),
                                    },
                                ),
                                p3,
                            )
                        } else {
                            (Err("Type error"@), p3)
                        },
                    }
                } else {
                    (Ok(ex), p1)
                }
            },
        }
    }
}

/// The `==` and `!=` operators after a first operand.
pub open spec fn eq_tail_s(ex: ExprV, p: PView, f: nat) -> PRes<ExprV>
    decreases f,
{
    if f == 0 {
        (Err(Seq::empty()), p)
    } else {
        let tg = token_tag(p.look);
        if tg == 261 || tg == 269 {  // EQ NE
            let tok = p.look;
            let p1 = next_s(p);
            let (r, p2) = relation_s(p1, (f - 1) as nat);
            match r {
                Err(e) => (Err(e), p2),
                Ok(right) => if rel_ok(ex, right) {
                    eq_tail_s(
                        ExprV::Relation { op: tok, left: Box::new(ex), right: Box::new(right) },
                        p2,
                        (f - 1) as nat,
                    )
                } else {
                    (Err("Type error"@), p2)
                },
            }
        } else {
            (Ok(ex), p)
        }
    }
}

/// What `equality` parses: relations joined by `==` and `!=`.
pub open spec fn equality_s(p: PView, f: nat) -> PRes<ExprV>
    decreases f,
{
    if f == 0 {
        (Err(Seq::empty()), p)
    } else {
        let (r, p1) = relation_s(p, (f - 1) as nat);
        match r {
            Err(e) => (Err(e), p1),
            Ok(ex) => eq_tail_s(ex, p1, (f - 1) as nat),
        }
    }
}

/// The `&&` operators after a first operand.
pub open spec fn and_tail_s(ex: ExprV, p: PView, f: nat) -> PRes<ExprV>
    decreases f,
{
    if f == 0 {
        (Err(Seq::empty()), p)
    } else if token_tag(p.look) == 256 {  // AND
        let p1 = next_s(p);
        let (r, p2) = equality_s(p1, (f - 1) as nat);
        match r {
            Err(e) => (Err(e), p2),
            Ok(right) => if type_eq(etyp(ex), bool_type()) && type_eq(etyp(right), bool_type()) {
                and_tail_s(
                    ExprV::AndLogic { left: Box::new(ex), right: Box::new(right) },
                    p2,
                    (f - 1) as nat,
                )
            } else {
                (Err("Type Error"@), p2)
            },
        }
    } else {
        (Ok(ex), p)
    }
}

/// What `join` parses: equalities joined by `&&`.
pub open spec fn join_s(p: PView, f: nat) -> PRes<ExprV>
    decreases f,
{
    if f == 0 {
        (Err(Seq::empty()), p)
    } else {
        let (r, p1) = equality_s(p, (f - 1) as nat);
        match r {
            Err(e) => (Err(e), p1),
            Ok(ex) => and_tail_s(ex, p1, (f - 1) as nat),
        }
    }
}

/// The `||` operators after a first operand.
pub open spec fn or_tail_s(ex: ExprV, p: PView, f: nat) -> PRes<ExprV>
    decreases f,
{
    if f == 0 {
        (Err(Seq::empty()), p)
    } else if token_tag(p.look) == 271 {  // OR
        let p1 = next_s(p);
        let (r, p2) = join_s(p1, (f - 1) as nat);
        match r {
            Err(e) => (Err(e), p2),
            Ok(right) => if type_eq(etyp(ex), bool_type()) && type_eq(etyp(right), bool_type()) {
                or_tail_s(
                    ExprV::OrLogic { left: Box::new(ex), right: Box::new(right) },
                    p2,
                    (f - 1) as nat,
                )
            } else {
                (Err("Type Error"@), p2)
            },
        }
    } else {
        (Ok(ex), p)
    }
}

/// What `boolean` parses: joins joined by `||`; the whole expression
/// grammar hangs off this entry.
pub open spec fn boolean_s(p: PView, f: nat) -> PRes<ExprV>
    decreases f,
{
    if f == 0 {
        (Err(Seq::empty()), p)
    } else {
        let (r, p1) = join_s(p, (f - 1) as nat);
        match r {
            Err(e) => (Err(e), p1),
            Ok(ex) => or_tail_s(ex, p1, (f - 1) as nat),
        }
    }
}

/// What `typ` parses: a basic type token, possibly followed by array
/// dimensions.
pub open spec fn typ_s(p: PView, f: nat) -> PRes<TypeV>
    decreases f,
{
    if f == 0 {
        (Err(Seq::empty()), p)
    } else {
        match type_of_token(p.look) {
            None => (Err("Invalid parameters: "@ + token_text(bad_type_token(p.look))), p),
            Some(ty) => {
                let (r1, p1) = match_s(p, 257);  // BASIC
                match r1 {
                    Err(e) => (Err(e), p1),
                    Ok(_) => if token_tag(p1.look) != 91 {  // '['
                        (Ok(ty), p1)
                    } else {
                        dims_s(ty, p1, (f - 1) as nat)
                    },
                }
            },
        }
    }
}

/// What `dims` parses: one bracketed length, then any further dimensions
/// wrapped inside it; lengths truncate to 32 bits.
pub open spec fn dims_s(ty: TypeV, p: PView, f: nat) -> PRes<TypeV>
    decreases f,
{
    if f == 0 {
        (Err(Seq::empty()), p)
    } else {
        let (r1, p1) = match_s(p, 91);  // '['
        match r1 {
            Err(e) => (Err(e), p1),
            Ok(_) => {
                let tok = p1.look;
                let (r2, p2) = match_s(p1, 270);  // INTEGER
                match r2 {
                    Err(e) => (Err(e), p2),
                    Ok(_) => match tok {
                        TokenV::Integer(v) => {
                            let (r3, p3) = match_s(p2, 93);  // ']'
                            match r3 {
                                Err(e) => (Err(e), p3),
                                Ok(_) => if token_tag(p3.look) == 91 {
                                    let (r4, p4) = dims_s(ty, p3, (f - 1) as nat);
                                    match r4 {
                                        Err(e) => (Err(e), p4),
                                        Ok(of) => (
                                            Ok(
                                                TypeV::Array {
                                                    of: Box::new(of),
                                                    length: v as u32,
                                                },
                                            ),
                                            p4,
                                        ),
                                    }
                                } else {
                                    (
                                        Ok(TypeV::Array { of: Box::new(ty), length: v as u32 }),
                                        p3,
                                    )
                                },
                            }
                        },
                        _ => (Err(syntax_error_msg(p2.lex.line)), p2),
                    },
                }
            },
        }
    }
}

/// What `decls` does: reads `type ID ;` declarations while a basic type
/// leads, recording each in the innermost scope at the running byte
/// offset, which grows by the type's width with 64-bit wrap-around.
pub open spec fn decls_s(p: PView, f: nat) -> PRes<()>
    decreases f,
{
    if f == 0 {
        (Err(Seq::empty()), p)
    } else if token_tag(p.look) == 257 {  // BASIC
        let (r1, p1) = typ_s(p, (f - 1) as nat);
        match r1 {
            Err(e) => (Err(e), p1),
            Ok(ty) => {
                let tok = p1.look;
                let (r2, p2) = match_s(p1, 264);  // ID
                match r2 {
                    Err(e) => (Err(e), p2),
                    Ok(_) => {
                        let (r3, p3) = match_s(p2, 59);  // ';'
                        match r3 {
                            Err(e) => (Err(e), p3),
                            Ok(_) => {
                                let idv = IdentV { id: tok, typ: ty, offset: p3.used as i32 };
                                let env2 = p3.env.drop_last() + seq![
                                    p3.env.last() + seq![(token_text(tok), idv)]
                                ];
                                let used2 = vstd::wrapping::i64_specs::wrapping_add(
                                    p3.used,
                                    type_width(ty) as i64,
                                );
                                decls_s(
                                    PView { lex: p3.lex, look: p3.look, env: env2, used: used2 },
                                    (f - 1) as nat,
                                )
                            },
                        }
                    },
                }
            },
        }
    } else {
        (Ok(()), p)
    }
}

/// What `stmts` parses: statements up to the closing brace, folded into a
/// right-nested sequence ending in the empty statement.
pub open spec fn stmts_s(p: PView, f: nat) -> PRes<StmtV>
    decreases f, 1int,
{
    if f == 0 {
        (Err(Seq::empty()), p)
    } else if token_tag(p.look) == 125 {  // '}'
        (Ok(StmtV::Null), p)
    } else {
        let (r1, p1) = stmt_s(p, (f - 1) as nat);
        match r1 {
            Err(e) => (Err(e), p1),
            Ok(head) => {
                let (r2, p2) = stmts_s(p1, (f - 1) as nat);
                match r2 {
                    Err(e) => (Err(e), p2),
                    Ok(tail) => (
                        Ok(StmtV::Sequence { head: Box::new(head), tail: Box::new(tail) }),
                        p2,
                    ),
                }
            },
        }
    }
}

/// What a conditional parses to: the `IF` case of `stmt_s`.
pub open spec fn if_s(p: PView, f: nat) -> PRes<StmtV>
    decreases f, 0int,
{
    if f == 0 {
        (Err(Seq::empty()), p)
    } else {
        let p1 = next_s(p);
        let (r2, p2) = match_s(p1, 40);  // '('
        match r2 {
            Err(e) => (Err(e), p2),
            Ok(_) => {
                let (r3, p3) = boolean_s(p2, (f - 1) as nat);
                match r3 {
                    Err(e) => (Err(e), p3),
                    Ok(ex) => {
                        let (r4, p4) = match_s(p3, 41);  // ')'
                        match r4 {
                            Err(e) => (Err(e), p4),
                            Ok(_) => {
                                let (r5, p5) = stmt_s(p4, (f - 1) as nat);
                                match r5 {
                                    Err(e) => (Err(e), p5),
                                    Ok(body) => if token_tag(p5.look) != 260 {  // no ELSE
                                        if type_eq(etyp(ex), bool_type()) {
                                            (
                                                Ok(
                                                    StmtV::If {
                                                        cond: Box::new(ex),
                                                        body: Box::new(body),
                                                    },
                                                ),
                                                p5,
                                            )
                                        } else {
                                            (Err("If condition should be of bool type"@), p5)
                                        }
                                    } else {
                                        let p6 = next_s(p5);
                                        let (r6, p7) = stmt_s(p6, (f - 1) as nat);
                                        match r6 {
                                            Err(e) => (Err(e), p7),
                                            Ok(els) => if type_eq(etyp(ex), bool_type()) {
                                                (
                                                    Ok(
                                                        StmtV::IfElse {
                                                            cond: Box::new(ex),
                                                            true_stmt: Box::new(body),
                                                            false_stmt: Box::new(els),
                                                        },
                                                    ),
                                                    p7,
                                                )
                                            } else {
                                                (
                                                    Err("If condition should be of bool type"@),
                                                    p7,
                                                )
                                            },
                                        }
                                    },
                                }
                            },
                        }
                    },
                }
            },
        }
    }
}

/// What a while loop parses to: the `WHILE` case of `stmt_s`.
pub open spec fn while_s(p: PView, f: nat) -> PRes<StmtV>
    decreases f, 0int,
{
    if f == 0 {
        (Err(Seq::empty()), p)
    } else {
        let p1 = next_s(p);
        let (r2, p2) = match_s(p1, 40);  // '('
        match r2 {
            Err(e) => (Err(e), p2),
            Ok(_) => {
                let (r3, p3) = boolean_s(p2, (f - 1) as nat);
                match r3 {
                    Err(e) => (Err(e), p3),
                    Ok(ex) => if !type_eq(etyp(ex), bool_type()) {
                        (
                            Err("Expression in boolean condition is required for while loop."@),
                            p3,
                        )
                    } else {
                        let (r4, p4) = match_s(p3, 41);  // ')'
                        match r4 {
                            Err(e) => (Err(e), p4),
                            Ok(_) => {
                                let (r5, p5) = stmt_s(p4, (f - 1) as nat);
                                match r5 {
                                    Err(e) => (Err(e), p5),
                                    Ok(body) => (
                                        Ok(
                                            StmtV::While {
                                                cond: Box::new(ex),
                                                body: Box::new(body),
                                            },
                                        ),
                                        p5,
                                    ),
                                }
                            },
                        }
                    },
                }
            },
        }
    }
}

/// What the rest of a do-while loop parses to, once its body is in
/// hand: the `while ( bool ) ;` trailer of the `DO` case of `stmt_s`.
pub open spec fn do_rest_s(body: StmtV, p: PView, f: nat) -> PRes<StmtV> {
    if f == 0 {
        (Err(Seq::empty()), p)
    } else {
        let (r3, p3) = match_s(p, 275);  // WHILE
        match r3 {
            Err(e) => (Err(e), p3),
            Ok(_) => {
                let (r4, p4) = match_s(p3, 40);  // '('
                match r4 {
                    Err(e) => (Err(e), p4),
                    Ok(_) => {
                        let (r5, p5) = boolean_s(p4, (f - 1) as nat);
                        match r5 {
                            Err(e) => (Err(e), p5),
                            Ok(ex) => if !type_eq(etyp(ex), bool_type()) {
                                (
                                    Err(
                                        "Expression in boolean condition is required for while loop."@,
                                    ),
                                    p5,
                                )
                            } else {
                                let (r6, p6) = match_s(p5, 41);  // ')'
                                match r6 {
                                    Err(e) => (Err(e), p6),
                                    Ok(_) => {
                                        let (r7, p7) = match_s(p6, 59);  // ';'
                                        match r7 {
                                            Err(e) => (Err(e), p7),
                                            Ok(_) => (
                                                Ok(
                                                    StmtV::DoWhile {
                                                        cond: Box::new(ex),
                                                        body: Box::new(body),
                                                    },
                                                ),
                                                p7,
                                            ),
                                        }
                                    },
                                }
                            },
                        }
                    },
                }
            },
        }
    }
}

/// What a do-while loop parses to: the `DO` case of `stmt_s`.
pub open spec fn do_s(p: PView, f: nat) -> PRes<StmtV>
    decreases f, 0int,
{
    if f == 0 {
        (Err(Seq::empty()), p)
    } else {
        let p1 = next_s(p);
        let (r2, p2) = stmt_s(p1, (f - 1) as nat);
        match r2 {
            Err(e) => (Err(e), p2),
            Ok(body) => do_rest_s(body, p2, f),
        }
    }
}

/// What `stmt` parses: the empty statement, a conditional, a loop, a
/// break, a nested block, or an assignment.
pub open spec fn stmt_s(p: PView, f: nat) -> PRes<StmtV>
    decreases f, 1int,
{
    if f == 0 {
        (Err(Seq::empty()), p)
    } else {
        let tg = token_tag(p.look);
        if tg == 59 {  // ';'
            (Ok(StmtV::Null), next_s(p))
        } else if tg == 265 {  // IF
            if_s(p, f)
        } else if tg == 275 {  // WHILE
            while_s(p, f)
        } else if tg == 259 {  // DO
            do_s(p, f)
        } else if tg == 258 {  // BREAK
            let p1 = next_s(p);
            let (r2, p2) = match_s(p1, 59);  // ';'
            match r2 {
                Err(e) => (Err(e), p2),
                Ok(_) => (Ok(StmtV::Break), p2),
            }
        } else if tg == 123 {  // '{'
            block_s(p, (f - 1) as nat)
        } else {
            assign_s(p, (f - 1) as nat)
        }
    }
}

/// What `assign` parses: an assignment to a declared identifier or to an
/// element of a declared array.
pub open spec fn assign_s(p: PView, f: nat) -> PRes<StmtV>
    decreases f, 1int,
{
    if f == 0 {
        (Err(Seq::empty()), p)
    } else {
        let tok = p.look;
        let (r1, p1) = match_s(p, 264);  // ID
        match r1 {
            Err(e) => (Err(e), p1),
            Ok(_) => match env_get(p1.env, token_text(tok)) {
                None => (Err("Undeclared identifier "@ + token_text(tok)), p1),
                Some(idv) => if token_tag(p1.look) == 61 {  // '='
                    let p2 = next_s(p1);
                    let (r2, p3) = boolean_s(p2, (f - 1) as nat);
                    match r2 {
                        Err(e) => (Err(e), p3),
                        Ok(ex) => if !assign_compatible(idv.typ, etyp(ex)) {
                            (Err("Type Error"@), p3)
                        } else {
                            let (r3, p4) = match_s(p3, 59);  // ';'
                            match r3 {
                                Err(e) => (Err(e), p4),
                                Ok(_) => (
                                    Ok(StmtV::Assign { id: idv, expr: Box::new(ex) }),
                                    p4,
                                ),
                            }
                        },
                    }
                } else {
                    let (r2, p3) = offset_s(idv, p1, (f - 1) as nat);
                    match r2 {
                        Err(e) => (Err(e), p3),
                        Ok(acc) => {
                            let (r3, p4) = match_s(p3, 61);  // '='
                            match r3 {
                                Err(e) => (Err(e), p4),
                                Ok(_) => {
                                    let (r4, p5) = boolean_s(p4, (f - 1) as nat);
                                    match r4 {
                                        Err(e) => (Err(e), p5),
                                        Ok(ex) => match acc {
                                            ExprV::Access { array, index, typ } => if check_types_s(
                                                typ,
                                                etyp(ex),
                                            ) is None {
                                                (Err("Type Error"@), p5)
                                            } else {
                                                let (r5, p6) = match_s(p5, 59);  // ';'
                                                match r5 {
                                                    Err(e) => (Err(e), p6),
                                                    Ok(_) => (
                                                        Ok(
                                                            StmtV::AssignArray {
                                                                id: array,
                                                                index,
                                                                expr: Box::new(ex),
                                                            },
                                                        ),
                                                        p6,
                                                    ),
                                                }
                                            },
                                            _ => (Err(Seq::empty()), p5),
                                        },
                                    }
                                },
                            }
                        },
                    }
                },
            },
        }
    }
}

/// What closing a block does: match the closing brace and drop the
/// block's scope.
pub open spec fn close_s(p: PView) -> PRes<()> {
    let (r4, p4) = match_s(p, 125);  // '}'
    match r4 {
        Err(e) => (Err(e), p4),
        Ok(_) => (
            Ok(()),
            PView { lex: p4.lex, look: p4.look, env: p4.env.drop_last(), used: p4.used },
        ),
    }
}

/// What the tail of a block parses to: its statements, then the closing
/// brace and the scope's closure.
pub open spec fn block_tail_s(p: PView, f: nat) -> PRes<StmtV>
    decreases f, 0int,
{
    if f == 0 {
        (Err(Seq::empty()), p)
    } else {
        let (r3, p3) = stmts_s(p, (f - 1) as nat);
        match r3 {
            Err(e) => (Err(e), p3),
            Ok(body) => {
                let (r4, p4) = close_s(p3);
                match r4 {
                    Err(e) => (Err(e), p4),
                    Ok(_) => (Ok(body), p4),
                }
            },
        }
    }
}

/// What the inside of a block parses to, once its scope is open: the
/// declarations, then the block's tail.
pub open spec fn block_rest_s(p: PView, f: nat) -> PRes<StmtV>
    decreases f, 1int,
{
    if f == 0 {
        (Err(Seq::empty()), p)
    } else {
        let (r2, p2) = decls_s(p, (f - 1) as nat);
        match r2 {
            Err(e) => (Err(e), p2),
            Ok(_) => block_tail_s(p2, f),
        }
    }
}

/// What `block` parses: a braced declaration list and statement sequence
/// in a scope of its own, opened on entry and closed on the way out.
pub open spec fn block_s(p: PView, f: nat) -> PRes<StmtV>
    decreases f, 2int,
{
    if f == 0 {
        (Err(Seq::empty()), p)
    } else {
        let (r1, p1) = match_s(p, 123);  // '{'
        match r1 {
            Err(e) => (Err(e), p1),
            Ok(_) => block_rest_s(
                PView {
                    lex: p1.lex,
                    look: p1.look,
                    env: p1.env + seq![Seq::<(Seq<char>, IdentV)>::empty()],
                    used: p1.used,
                },
                f,
            ),
        }
    }
}

/// The fuel that suffices for a whole program parse from a given state.
pub open spec fn prog_fuel(p: PView) -> nat {
    (16 * pm(p) + 12) as nat
}

/// What a whole compile yields: the parse outcome, the text appended to
/// the output, and the final allocator and parser states.
pub struct ProgOut {
    pub res: Result<(), Seq<char>>,
    pub text: Seq<char>,
    pub g: NameGen,
    pub p: PView,
}

/// What driving a parsed root statement does: place a begin label,
/// flatten the statement between the begin and after labels, and place
/// the after label; an unenclosed break leaves the text emitted up to it.
pub open spec fn drive_s(root: StmtV, g: NameGen) -> (Result<(), Seq<char>>, Seq<char>, NameGen) {
    let begin = g.labels;
    let g1 = bump_label(g);
    let after = g1.labels;
    let g2 = bump_label(g1);
    let so = sgen_s(root, begin, after, 0, g2);
    if so.ok {
        (Ok(()), label_text(begin) + so.text + label_text(after), so.g)
    } else {
        (Err("Unenclosed break"@), label_text(begin) + so.text, so.g)
    }
}

/// What `program` does: parse the root block, then drive it; a parse
/// error emits nothing.
pub open spec fn program_s(p: PView, g: NameGen) -> ProgOut {
    let (r, p1) = block_s(p, prog_fuel(p));
    match r {
        Err(e) => ProgOut { res: Err(e), text: Seq::empty(), g, p: p1 },
        Ok(root) => {
            let (res, text, g2) = drive_s(root, g);
            ProgOut { res, text, g: g2, p: p1 }
        },
    }
}

impl Parser {
    /// A parser over the given scanner, primed with one look-ahead token.
    pub fn new(lexer: Lexer) -> (r: Result<Parser, String>)
        requires
            lexer.wf(),
        ensures
            match r {
                Ok(p) => p@ == next_s(
                    PView {
                        lex: lexer@,
                        look: TokenV::Eof,
                        env: seq![Seq::<(Seq<char>, IdentV)>::empty()],
                        used: 0,
                    },
                ) && pwf(p@),
                Err(_) => false,
            },
    {
        let mut res = Parser {
            lexer,
            lookahead: Token::Eof,
            top: Environment::empty(),
            used: 0,
        };
        res.next();
        Ok(res)
    }

    /// Scans the next token into the look-ahead.
    fn next(&mut self)
        requires
            pwf(old(self)@),
        ensures
            final(self)@ == next_s(old(self)@),
            pwf(final(self)@),
            final(self)@.env == old(self)@.env,
            final(self)@.used == old(self)@.used,
            pm(final(self)@) <= pm(old(self)@),
            token_tag(old(self)@.look) != 0xFFFF_FFFFu32 ==> pm(final(self)@) < pm(old(self)@),
    {
        proof {
            lemma_scan_measure(self@.lex);
        }
        self.lookahead = self.lexer.scan();
    }

    /// Demands one expected tag of the look-ahead and advances past it;
    /// the wrong token is a syntax error at the current line.
    fn match_token(&mut self, tag: u32) -> (r: Result<(), String>)
        requires
            pwf(old(self)@),
            tag != 0xFFFF_FFFFu32,
        ensures
            pwf(final(self)@),
            final(self)@.env == old(self)@.env,
            final(self)@.used == old(self)@.used,
            pm(final(self)@) <= pm(old(self)@),
            r is Ok ==> pm(final(self)@) < pm(old(self)@),
            ({
                let (res, p2) = match_s(old(self)@, tag);
                final(self)@ == p2 && match (r, res) {
                    (Ok(_), Ok(_)) => true,
                    (Err(m), Err(e)) => m@ == e,
                    _ => false,
                }
            }),
    {
        if !self.lookahead.match_tag(tag) {
            let mut m = "Syntax error near line ".to_owned();
            push_u64(&mut m, self.lexer.line as u64);
            return Err(m);
        }
        self.next();
        Ok(())
    }

    /// Parses one factor, exactly as `factor_s` states it.
    fn factor(&mut self, Ghost(f): Ghost<nat>) -> (r: Result<Box<Expression>, String>)
        requires
            pwf(old(self)@),
            f >= 16 * pm(old(self)@) + 3,
        ensures
            pwf(final(self)@),
            final(self)@.env == old(self)@.env,
            final(self)@.used == old(self)@.used,
            pm(final(self)@) <= pm(old(self)@),
            r is Ok ==> pm(final(self)@) < pm(old(self)@),
            ({
                let (res, p2) = factor_s(old(self)@, f);
                final(self)@ == p2 && match (r, res) {
                    (Ok(x), Ok(v)) => x@ == v && wf_expr(v),
                    (Err(m), Err(e)) => m@ == e,
                    _ => false,
                }
            }),
        decreases f,
    {
        let tg = self.lookahead.tag();
        if tg == 40 {  // '('
            self.next();
            let ex = self.boolean(Ghost((f - 1) as nat))?;
            self.match_token(41)?;  // ')'
            Ok(ex)
        } else if tg == 270 || tg == 272 {  // a number
            let ex = Constant::new_box(self.lookahead.duplicate())?;
            self.next();
            Ok(ex)
        } else if tg == 274 || tg == 262 {  // `true`, and `false` likewise
            let ex = Constant::true_constant().boxed();
            self.next();
            Ok(ex)
        } else if tg == 264 {  // an identifier
            let key = self.lookahead.to_text();
            let id = self.top.get(key.as_str())?;
            self.next();
            if self.lookahead.match_tag(91) {  // '['
                let acc = self.offset(id, Ghost((f - 1) as nat))?;
                return Ok(acc.boxed());
            }
            Ok(id.boxed())
        } else {
            Err("Syntax Error".to_owned())
        }
    }

    /// Parses the subscripts of an array access, exactly as `offset_s`
    /// states it.
    #[verifier::rlimit(100)]
    #[verifier::spinoff_prover]
    fn offset(&mut self, id: Identifier, Ghost(f): Ghost<nat>) -> (r: Result<AccessOp, String>)
        requires
            pwf(old(self)@),
            f >= 16 * pm(old(self)@) + 2,
        ensures
            pwf(final(self)@),
            final(self)@.env == old(self)@.env,
            final(self)@.used == old(self)@.used,
            pm(final(self)@) <= pm(old(self)@),
            r is Ok ==> pm(final(self)@) < pm(old(self)@),
            ({
                let (res, p2) = offset_s(id@, old(self)@, f);
                final(self)@ == p2 && match (r, res) {
                    (Ok(a), Ok(v)) => a@ == v && wf_expr(v),
                    (Err(m), Err(e)) => m@ == e,
                    _ => false,
                }
            }),
        decreases f,
    {
        let typ = id.typ();
        self.match_token(91)?;  // '['
        let index = self.boolean(Ghost((f - 1) as nat))?;
        self.match_token(93)?;  // ']'
        let el = match typ {
            Type::Array { of, length: _ } => *of,
            _ => {
                return Err("String error".to_owned());
            },
        };
        let width = Constant::integer(el.width() as i64).boxed();
        let ghost iv = index@;
        let ghost wv = width@;
        let t1 = ArithmeticOp::new_box(Token::Tok(42), index, width)?;
        proof {
            assert(wv == (ExprV::Constant {
                token: TokenV::Integer(type_width(el@) as i64),
                typ: crate::types::int_type(),
            }));
            assert(etyp(wv) == crate::types::int_type());
            let m = max_type_s(etyp(iv), etyp(wv));
            assert(m is Some);
            assert(m is Some && m == Some(m.unwrap()));
            assert(t1@ is Arithmetic);
            assert(*t1@->Arithmetic_left == iv);
            assert(*t1@->Arithmetic_right == wv);
            assert(wf_expr(iv));
            assert(wf_expr(wv));
            assert(max_type_s(etyp(iv), etyp(wv)) == Some(t1@->Arithmetic_typ));
            assert(wf_expr(t1@));
        }
        self.offset_tail(id, t1, el, Ghost((f - 1) as nat))
    }

    /// Parses the remaining subscripts of a multi-dimensional access,
    /// exactly as `offset_tail_s` states it.
    #[verifier::rlimit(100)]
    #[verifier::spinoff_prover]
    fn offset_tail(
        &mut self,
        id: Identifier,
        loc: Box<Expression>,
        typ: Type,
        Ghost(f): Ghost<nat>,
    ) -> (r: Result<AccessOp, String>)
        requires
            pwf(old(self)@),
            wf_expr(loc@),
            f >= 16 * pm(old(self)@) + 1,
        ensures
            pwf(final(self)@),
            final(self)@.env == old(self)@.env,
            final(self)@.used == old(self)@.used,
            pm(final(self)@) <= pm(old(self)@),
            ({
                let (res, p2) = offset_tail_s(id@, loc@, typ@, old(self)@, f);
                final(self)@ == p2 && match (r, res) {
                    (Ok(a), Ok(v)) => a@ == v && wf_expr(v),
                    (Err(m), Err(e)) => m@ == e,
                    _ => false,
                }
            }),
        decreases f,
    {
        if self.lookahead.match_tag(91) {  // '['
            self.match_token(91)?;
            let index = self.boolean(Ghost((f - 1) as nat))?;
            self.match_token(93)?;  // ']'
            let el = match typ {
                Type::Array { of, length: _ } => *of,
                _ => {
                    return Err("String error".to_owned());
                },
            };
            let width = Constant::integer(el.width() as i64).boxed();
            let ghost iv = index@;
            let ghost wv = width@;
            let t1 = ArithmeticOp::new_box(Token::Tok(42), index, width)?;
            let ghost lv = loc@;
            let ghost t1v = t1@;
            let t2 = ArithmeticOp::new_box(Token::Tok(43), loc, t1)?;
            proof {
                let m1 = max_type_s(etyp(iv), etyp(wv));
                assert(m1 is Some && m1 == Some(m1.unwrap()));
                assert(t1v is Arithmetic);
                assert(*t1v->Arithmetic_left == iv);
                assert(*t1v->Arithmetic_right == wv);
                assert(wf_expr(iv));
                assert(wf_expr(wv));
                assert(max_type_s(etyp(iv), etyp(wv)) == Some(t1v->Arithmetic_typ));
                assert(wf_expr(t1v));
                let m2 = max_type_s(etyp(lv), etyp(t1v));
                assert(m2 is Some && m2 == Some(m2.unwrap()));
                assert(t2@ is Arithmetic);
                assert(*t2@->Arithmetic_left == lv);
                assert(*t2@->Arithmetic_right == t1v);
                assert(wf_expr(lv));
                assert(max_type_s(etyp(lv), etyp(t1v)) == Some(t2@->Arithmetic_typ));
                assert(wf_expr(t2@));
            }
            self.offset_tail(id, t2, el, Ghost((f - 1) as nat))
        } else {
            Ok(AccessOp::new(Box::new(id), loc, &typ))
        }
    }

    /// Parses one unary expression, exactly as `unary_s` states it.
    fn unary(&mut self, Ghost(f): Ghost<nat>) -> (r: Result<Box<Expression>, String>)
        requires
            pwf(old(self)@),
            f >= 16 * pm(old(self)@) + 4,
        ensures
            pwf(final(self)@),
            final(self)@.env == old(self)@.env,
            final(self)@.used == old(self)@.used,
            pm(final(self)@) <= pm(old(self)@),
            r is Ok ==> pm(final(self)@) < pm(old(self)@),
            ({
                let (res, p2) = unary_s(old(self)@, f);
                final(self)@ == p2 && match (r, res) {
                    (Ok(x), Ok(v)) => x@ == v && wf_expr(v),
                    (Err(m), Err(e)) => m@ == e,
                    _ => false,
                }
            }),
        decreases f,
    {
        let tg = self.lookahead.tag();
        if tg == 45 {  // '-'
            self.next();
            let ex = self.unary(Ghost((f - 1) as nat))?;
            let u = UnaryOp::new_box(Token::minus_word(), ex)?;
            Ok(u)
        } else if tg == 33 {  // '!'
            let tok = self.lookahead.duplicate();
            self.next();
            let ex = self.unary(Ghost((f - 1) as nat))?;
            let n = NotLogicOp::new_box(tok, ex)?;
            Ok(n)
        } else {
            self.factor(Ghost((f - 1) as nat))
        }
    }

    /// Parses one term, exactly as `term_s` states it.
    fn term(&mut self, Ghost(f): Ghost<nat>) -> (r: Result<Box<Expression>, String>)
        requires
            pwf(old(self)@),
            f >= 16 * pm(old(self)@) + 5,
        ensures
            pwf(final(self)@),
            final(self)@.env == old(self)@.env,
            final(self)@.used == old(self)@.used,
            pm(final(self)@) <= pm(old(self)@),
            r is Ok ==> pm(final(self)@) < pm(old(self)@),
            ({
                let (res, p2) = term_s(old(self)@, f);
                final(self)@ == p2 && match (r, res) {
                    (Ok(x), Ok(v)) => x@ == v && wf_expr(v),
                    (Err(m), Err(e)) => m@ == e,
                    _ => false,
                }
            }),
        decreases f,
    {
        let ex = self.unary(Ghost((f - 1) as nat))?;
        self.mul_tail(ex, Ghost((f - 1) as nat))
    }

    /// Parses the `*` and `/` operators after a first operand, exactly as
    /// `mul_tail_s` states it.
    fn mul_tail(&mut self, ex: Box<Expression>, Ghost(f): Ghost<nat>) -> (r: Result<
        Box<Expression>,
        String,
    >)
        requires
            pwf(old(self)@),
            wf_expr(ex@),
            f >= 16 * pm(old(self)@) + 1,
        ensures
            pwf(final(self)@),
            final(self)@.env == old(self)@.env,
            final(self)@.used == old(self)@.used,
            pm(final(self)@) <= pm(old(self)@),
            ({
                let (res, p2) = mul_tail_s(ex@, old(self)@, f);
                final(self)@ == p2 && match (r, res) {
                    (Ok(x), Ok(v)) => x@ == v && wf_expr(v),
                    (Err(m), Err(e)) => m@ == e,
                    _ => false,
                }
            }),
        decreases f,
    {
        let tg = self.lookahead.tag();
        if tg == 42 || tg == 47 {  // '*' '/'
            let tok = self.lookahead.duplicate();
            self.next();
            let right = self.unary(Ghost((f - 1) as nat))?;
            let ex2 = ArithmeticOp::new_box(tok, ex, right)?;
            self.mul_tail(ex2, Ghost((f - 1) as nat))
        } else {
            Ok(ex)
        }
    }

    /// Parses one additive expression, exactly as `expr_s` states it.
    fn expr(&mut self, Ghost(f): Ghost<nat>) -> (r: Result<Box<Expression>, String>)
        requires
            pwf(old(self)@),
            f >= 16 * pm(old(self)@) + 6,
        ensures
            pwf(final(self)@),
            final(self)@.env == old(self)@.env,
            final(self)@.used == old(self)@.used,
            pm(final(self)@) <= pm(old(self)@),
            r is Ok ==> pm(final(self)@) < pm(old(self)@),
            ({
                let (res, p2) = expr_s(old(self)@, f);
                final(self)@ == p2 && match (r, res) {
                    (Ok(x), Ok(v)) => x@ == v && wf_expr(v),
                    (Err(m), Err(e)) => m@ == e,
                    _ => false,
                }
            }),
        decreases f,
    {
        let ex = self.term(Ghost((f - 1) as nat))?;
        self.add_tail(ex, Ghost((f - 1) as nat))
    }

    /// Parses the `+` and `-` operators after a first operand, exactly as
    /// `add_tail_s` states it.
    fn add_tail(&mut self, ex: Box<Expression>, Ghost(f): Ghost<nat>) -> (r: Result<
        Box<Expression>,
        String,
    >)
        requires
            pwf(old(self)@),
            wf_expr(ex@),
            f >= 16 * pm(old(self)@) + 1,
        ensures
            pwf(final(self)@),
            final(self)@.env == old(self)@.env,
            final(self)@.used == old(self)@.used,
            pm(final(self)@) <= pm(old(self)@),
            ({
                let (res, p2) = add_tail_s(ex@, old(self)@, f);
                final(self)@ == p2 && match (r, res) {
                    (Ok(x), Ok(v)) => x@ == v && wf_expr(v),
                    (Err(m), Err(e)) => m@ == e,
                    _ => false,
                }
            }),
        decreases f,
    {
        let tg = self.lookahead.tag();
        if tg == 43 || tg == 45 {  // '+' '-'
            let tok = self.lookahead.duplicate();
            self.next();
            let right = self.term(Ghost((f - 1) as nat))?;
            let ex2 = ArithmeticOp::new_box(tok, ex, right)?;
            self.add_tail(ex2, Ghost((f - 1) as nat))
        } else {
            Ok(ex)
        }
    }

    /// Parses one relation, exactly as `relation_s` states it.
    #[verifier::rlimit(100)]
    fn relation(&mut self, Ghost(f): Ghost<nat>) -> (r: Result<Box<Expression>, String>)
        requires
            pwf(old(self)@),
            f >= 16 * pm(old(self)@) + 7,
        ensures
            pwf(final(self)@),
            final(self)@.env == old(self)@.env,
            final(self)@.used == old(self)@.used,
            pm(final(self)@) <= pm(old(self)@),
            r is Ok ==> pm(final(self)@) < pm(old(self)@),
            ({
                let (res, p2) = relation_s(old(self)@, f);
                final(self)@ == p2 && match (r, res) {
                    (Ok(x), Ok(v)) => x@ == v && wf_expr(v),
                    (Err(m), Err(e)) => m@ == e,
                    _ => false,
                }
            }),
        decreases f,
    {
        let ex = self.expr(Ghost((f - 1) as nat))?;
        let tok = self.lookahead.duplicate();
        let tg = tok.tag();
        if tg == 60 || tg == 62 || tg == 267 || tg == 263 {  // '<' '>' LE GE
            self.next();
            let right = self.expr(Ghost((f - 1) as nat))?;
            let rel = RelationOp::new_box(tok, ex, right)?;
            Ok(rel)
        } else {
            Ok(ex)
        }
    }

    /// Parses the `==` and `!=` operators after a first operand, exactly
    /// as `eq_tail_s` states it.
    #[verifier::rlimit(100)]
    fn eq_tail(&mut self, ex: Box<Expression>, Ghost(f): Ghost<nat>) -> (r: Result<
        Box<Expression>,
        String,
    >)
        requires
            pwf(old(self)@),
            wf_expr(ex@),
            f >= 16 * pm(old(self)@) + 1,
        ensures
            pwf(final(self)@),
            final(self)@.env == old(self)@.env,
            final(self)@.used == old(self)@.used,
            pm(final(self)@) <= pm(old(self)@),
            ({
                let (res, p2) = eq_tail_s(ex@, old(self)@, f);
                final(self)@ == p2 && match (r, res) {
                    (Ok(x), Ok(v)) => x@ == v && wf_expr(v),
                    (Err(m), Err(e)) => m@ == e,
                    _ => false,
                }
            }),
        decreases f,
    {
        let tg = self.lookahead.tag();
        if tg == 261 || tg == 269 {  // EQ NE
            let tok = self.lookahead.duplicate();
            self.next();
            let right = self.relation(Ghost((f - 1) as nat))?;
            let ex2 = RelationOp::new_box(tok, ex, right)?;
            self.eq_tail(ex2, Ghost((f - 1) as nat))
        } else {
            Ok(ex)
        }
    }

    /// Parses one equality, exactly as `equality_s` states it.
    fn equality(&mut self, Ghost(f): Ghost<nat>) -> (r: Result<Box<Expression>, String>)
        requires
            pwf(old(self)@),
            f >= 16 * pm(old(self)@) + 8,
        ensures
            pwf(final(self)@),
            final(self)@.env == old(self)@.env,
            final(self)@.used == old(self)@.used,
            pm(final(self)@) <= pm(old(self)@),
            r is Ok ==> pm(final(self)@) < pm(old(self)@),
            ({
                let (res, p2) = equality_s(old(self)@, f);
                final(self)@ == p2 && match (r, res) {
                    (Ok(x), Ok(v)) => x@ == v && wf_expr(v),
                    (Err(m), Err(e)) => m@ == e,
                    _ => false,
                }
            }),
        decreases f,
    {
        let ex = self.relation(Ghost((f - 1) as nat))?;
        self.eq_tail(ex, Ghost((f - 1) as nat))
    }

    /// Parses the `&&` operators after a first operand, exactly as
    /// `and_tail_s` states it.
    #[verifier::rlimit(100)]
    fn and_tail(&mut self, ex: Box<Expression>, Ghost(f): Ghost<nat>) -> (r: Result<
        Box<Expression>,
        String,
    >)
        requires
            pwf(old(self)@),
            wf_expr(ex@),
            f >= 16 * pm(old(self)@) + 1,
        ensures
            pwf(final(self)@),
            final(self)@.env == old(self)@.env,
            final(self)@.used == old(self)@.used,
            pm(final(self)@) <= pm(old(self)@),
            ({
                let (res, p2) = and_tail_s(ex@, old(self)@, f);
                final(self)@ == p2 && match (r, res) {
                    (Ok(x), Ok(v)) => x@ == v && wf_expr(v),
                    (Err(m), Err(e)) => m@ == e,
                    _ => false,
                }
            }),
        decreases f,
    {
        if self.lookahead.match_tag(256) {  // AND
            self.next();
            let right = self.equality(Ghost((f - 1) as nat))?;
            let ex2 = AndLogicOp::new_box(ex, right)?;
            self.and_tail(ex2, Ghost((f - 1) as nat))
        } else {
            Ok(ex)
        }
    }

    /// Parses one join, exactly as `join_s` states it.
    fn join(&mut self, Ghost(f): Ghost<nat>) -> (r: Result<Box<Expression>, String>)
        requires
            pwf(old(self)@),
            f >= 16 * pm(old(self)@) + 9,
        ensures
            pwf(final(self)@),
            final(self)@.env == old(self)@.env,
            final(self)@.used == old(self)@.used,
            pm(final(self)@) <= pm(old(self)@),
            r is Ok ==> pm(final(self)@) < pm(old(self)@),
            ({
                let (res, p2) = join_s(old(self)@, f);
                final(self)@ == p2 && match (r, res) {
                    (Ok(x), Ok(v)) => x@ == v && wf_expr(v),
                    (Err(m), Err(e)) => m@ == e,
                    _ => false,
                }
            }),
        decreases f,
    {
        let ex = self.equality(Ghost((f - 1) as nat))?;
        self.and_tail(ex, Ghost((f - 1) as nat))
    }

    /// Parses the `||` operators after a first operand, exactly as
    /// `or_tail_s` states it.
    fn or_tail(&mut self, ex: Box<Expression>, Ghost(f): Ghost<nat>) -> (r: Result<
        Box<Expression>,
        String,
    >)
        requires
            pwf(old(self)@),
            wf_expr(ex@),
            f >= 16 * pm(old(self)@) + 1,
        ensures
            pwf(final(self)@),
            final(self)@.env == old(self)@.env,
            final(self)@.used == old(self)@.used,
            pm(final(self)@) <= pm(old(self)@),
            ({
                let (res, p2) = or_tail_s(ex@, old(self)@, f);
                final(self)@ == p2 && match (r, res) {
                    (Ok(x), Ok(v)) => x@ == v && wf_expr(v),
                    (Err(m), Err(e)) => m@ == e,
                    _ => false,
                }
            }),
        decreases f,
    {
        if self.lookahead.match_tag(271) {  // OR
            self.next();
            let right = self.join(Ghost((f - 1) as nat))?;
            let ex2 = OrLogicOp::new_box(ex, right)?;
            self.or_tail(ex2, Ghost((f - 1) as nat))
        } else {
            Ok(ex)
        }
    }

    /// Parses one boolean expression, exactly as `boolean_s` states it.
    fn boolean(&mut self, Ghost(f): Ghost<nat>) -> (r: Result<Box<Expression>, String>)
        requires
            pwf(old(self)@),
            f >= 16 * pm(old(self)@) + 10,
        ensures
            pwf(final(self)@),
            final(self)@.env == old(self)@.env,
            final(self)@.used == old(self)@.used,
            pm(final(self)@) <= pm(old(self)@),
            r is Ok ==> pm(final(self)@) < pm(old(self)@),
            ({
                let (res, p2) = boolean_s(old(self)@, f);
                final(self)@ == p2 && match (r, res) {
                    (Ok(x), Ok(v)) => x@ == v && wf_expr(v),
                    (Err(m), Err(e)) => m@ == e,
                    _ => false,
                }
            }),
        decreases f,
    {
        let ex = self.join(Ghost((f - 1) as nat))?;
        self.or_tail(ex, Ghost((f - 1) as nat))
    }

    /// Parses one type, exactly as `typ_s` states it.
    fn typ(&mut self, Ghost(f): Ghost<nat>) -> (r: Result<Type, String>)
        requires
            pwf(old(self)@),
            f >= 16 * pm(old(self)@) + 2,
        ensures
            pwf(final(self)@),
            final(self)@.env == old(self)@.env,
            final(self)@.used == old(self)@.used,
            pm(final(self)@) <= pm(old(self)@),
            r is Ok ==> pm(final(self)@) < pm(old(self)@),
            ({
                let (res, p2) = typ_s(old(self)@, f);
                final(self)@ == p2 && match (r, res) {
                    (Ok(t), Ok(v)) => t@ == v,
                    (Err(m), Err(e)) => m@ == e,
                    _ => false,
                }
            }),
        decreases f, 1int,
    {
        let ty = Type::new(&self.lookahead)?;
        self.match_token(257)?;  // BASIC
        if !self.lookahead.match_tag(91) {  // '['
            return Ok(ty);
        }
        self.dims(ty, Ghost((f - 1) as nat))
    }

    /// Parses array dimensions, exactly as `dims_s` states it.
    fn dims(&mut self, ty: Type, Ghost(f): Ghost<nat>) -> (r: Result<Type, String>)
        requires
            pwf(old(self)@),
            f >= 16 * pm(old(self)@) + 1,
        ensures
            pwf(final(self)@),
            final(self)@.env == old(self)@.env,
            final(self)@.used == old(self)@.used,
            pm(final(self)@) <= pm(old(self)@),
            r is Ok ==> pm(final(self)@) < pm(old(self)@),
            ({
                let (res, p2) = dims_s(ty@, old(self)@, f);
                final(self)@ == p2 && match (r, res) {
                    (Ok(t), Ok(v)) => t@ == v,
                    (Err(m), Err(e)) => m@ == e,
                    _ => false,
                }
            }),
        decreases f, 1int,
    {
        self.match_token(91)?;  // '['
        let tok = self.lookahead.duplicate();
        self.match_token(270)?;  // INTEGER
        let size = match tok {
            Token::Integer(val) => val,
            _ => {
                let mut m = "Syntax error near line ".to_owned();
                push_u64(&mut m, self.lexer.line as u64);
                return Err(m);
            },
        };
        self.match_token(93)?;  // ']'
        if self.lookahead.match_tag(91) {
            let of = self.dims(ty, Ghost((f - 1) as nat))?;
            Ok(Type::array(of, #[verifier::truncate] (size as u32)))
        } else {
            Ok(Type::array(ty, #[verifier::truncate] (size as u32)))
        }
    }

    /// Reads the leading declarations of a block, exactly as `decls_s`
    /// states it.
    #[verifier::rlimit(100)]
    fn decls(&mut self, Ghost(f): Ghost<nat>) -> (r: Result<(), String>)
        requires
            pwf(old(self)@),
            f >= 16 * pm(old(self)@) + 13,
        ensures
            pwf(final(self)@),
            final(self)@.env.len() == old(self)@.env.len(),
            pm(final(self)@) <= pm(old(self)@),
            ({
                let (res, p2) = decls_s(old(self)@, f);
                final(self)@ == p2 && match (r, res) {
                    (Ok(_), Ok(_)) => true,
                    (Err(m), Err(e)) => m@ == e,
                    _ => false,
                }
            }),
        decreases f, 1int,
    {
        if self.lookahead.match_tag(257) {  // BASIC
            let ty = self.typ(Ghost((f - 1) as nat))?;
            let tok = self.lookahead.duplicate();
            let ghost tokv = tok@;
            self.match_token(264)?;  // ID
            self.match_token(59)?;  // ';'
            let ghost pmid = self@;
            let offs = #[verifier::truncate] (self.used as i32);
            let id = Identifier::new(tok, &ty, offs);
            let key = id.to_text();
            self.top.put(key.as_str(), id);
            self.used = self.used.wrapping_add(ty.width() as i64);
            proof {
                let idv = IdentV { id: tokv, typ: ty@, offset: pmid.used as i32 };
                assert(self@.env =~~= pmid.env.drop_last() + seq![
                    pmid.env.last() + seq![(token_text(tokv), idv)]
                ]);
                assert(self@.env.len() == pmid.env.len());
                assert(pm(self@) == pm(pmid));
                assert(self@ == (PView {
                    lex: pmid.lex,
                    look: pmid.look,
                    env: pmid.env.drop_last() + seq![
                        pmid.env.last() + seq![(token_text(tokv), idv)]
                    ],
                    used: vstd::wrapping::i64_specs::wrapping_add(
                        pmid.used,
                        type_width(ty@) as i64,
                    ),
                }));
            }
            self.decls(Ghost((f - 1) as nat))
        } else {
            Ok(())
        }
    }

    /// Parses statements up to the closing brace, exactly as `stmts_s`
    /// states it.
    fn stmts(&mut self, Ghost(f): Ghost<nat>) -> (r: Result<Box<Statement>, String>)
        requires
            pwf(old(self)@),
            f >= 16 * pm(old(self)@) + 14,
        ensures
            pwf(final(self)@),
            r is Ok ==> final(self)@.env.len() == old(self)@.env.len(),
            pm(final(self)@) <= pm(old(self)@),
            ({
                let (res, p2) = stmts_s(old(self)@, f);
                final(self)@ == p2 && match (r, res) {
                    (Ok(x), Ok(v)) => x@ == v && wf_stmt(v),
                    (Err(m), Err(e)) => m@ == e,
                    _ => false,
                }
            }),
        decreases f, 1int,
    {
        if self.lookahead.match_tag(125) {  // '}'
            return Ok(NullStmt::new_box());
        }
        let head = self.stmt(Ghost((f - 1) as nat))?;
        let tail = self.stmts(Ghost((f - 1) as nat))?;
        Ok(StmtSeq::new_box(head, tail))
    }

    /// Parses one statement, exactly as `stmt_s` states it.
    fn stmt(&mut self, Ghost(f): Ghost<nat>) -> (r: Result<Box<Statement>, String>)
        requires
            pwf(old(self)@),
            f >= 16 * pm(old(self)@) + 13,
        ensures
            pwf(final(self)@),
            r is Ok ==> final(self)@.env.len() == old(self)@.env.len(),
            pm(final(self)@) <= pm(old(self)@),
            r is Ok ==> pm(final(self)@) < pm(old(self)@),
            ({
                let (res, p2) = stmt_s(old(self)@, f);
                final(self)@ == p2 && match (r, res) {
                    (Ok(x), Ok(v)) => x@ == v && wf_stmt(v),
                    (Err(m), Err(e)) => m@ == e,
                    _ => false,
                }
            }),
        decreases f, 1int,
    {
        let tg = self.lookahead.tag();
        if tg == 59 {  // ';'
            self.next();
            Ok(NullStmt::new_box())
        } else if tg == 265 {  // IF
            self.if_stmt(Ghost(f))
        } else if tg == 275 {  // WHILE
            self.while_stmt(Ghost(f))
        } else if tg == 259 {  // DO
            self.do_stmt(Ghost(f))
        } else if tg == 258 {  // BREAK
            self.match_token(258)?;
            self.match_token(59)?;  // ';'
            Ok(BreakStmt::new_box())
        } else if tg == 123 {  // '{'
            self.block(Ghost((f - 1) as nat))
        } else {
            self.assign(Ghost((f - 1) as nat))
        }
    }

    /// Parses a conditional, with or without an else branch: the `IF`
    /// case of `stmt_s`.
    #[verifier::rlimit(100)]
    #[verifier::spinoff_prover]
    fn if_stmt(&mut self, Ghost(f): Ghost<nat>) -> (r: Result<Box<Statement>, String>)
        requires
            pwf(old(self)@),
            token_tag(old(self)@.look) == 265,
            f >= 16 * pm(old(self)@) + 13,
        ensures
            pwf(final(self)@),
            r is Ok ==> final(self)@.env.len() == old(self)@.env.len(),
            pm(final(self)@) <= pm(old(self)@),
            r is Ok ==> pm(final(self)@) < pm(old(self)@),
            ({
                let (res, p2) = if_s(old(self)@, f);
                final(self)@ == p2 && match (r, res) {
                    (Ok(x), Ok(v)) => x@ == v && wf_stmt(v),
                    (Err(m), Err(e)) => m@ == e,
                    _ => false,
                }
            }),
        decreases f, 0int,
    {
        self.match_token(265)?;  // IF
        self.match_token(40)?;  // '('
        let ex = self.boolean(Ghost((f - 1) as nat))?;
        self.match_token(41)?;  // ')'
        let body = self.stmt(Ghost((f - 1) as nat))?;
        if !self.lookahead.match_tag(260) {  // no ELSE
            let ifs = IfStmt::new_box(ex, body)?;
            return Ok(ifs);
        }
        self.match_token(260)?;  // ELSE
        let els = self.stmt(Ghost((f - 1) as nat))?;
        let r = ElseStmt::new_box(ex, body, els)?;
        Ok(r)
    }

    /// Parses a while loop: the `WHILE` case of `stmt_s`.
    #[verifier::rlimit(100)]
    #[verifier::spinoff_prover]
    fn while_stmt(&mut self, Ghost(f): Ghost<nat>) -> (r: Result<Box<Statement>, String>)
        requires
            pwf(old(self)@),
            token_tag(old(self)@.look) == 275,
            f >= 16 * pm(old(self)@) + 13,
        ensures
            pwf(final(self)@),
            r is Ok ==> final(self)@.env.len() == old(self)@.env.len(),
            pm(final(self)@) <= pm(old(self)@),
            r is Ok ==> pm(final(self)@) < pm(old(self)@),
            ({
                let (res, p2) = while_s(old(self)@, f);
                final(self)@ == p2 && match (r, res) {
                    (Ok(x), Ok(v)) => x@ == v && wf_stmt(v),
                    (Err(m), Err(e)) => m@ == e,
                    _ => false,
                }
            }),
        decreases f, 0int,
    {
        self.match_token(275)?;  // WHILE
        self.match_token(40)?;  // '('
        let ex = self.boolean(Ghost((f - 1) as nat))?;
        let bt = Type::boolean();
        let ext = ex.typ();
        if !crate::types::types_equal(&ext, &bt) {
            return Err("Expression in boolean condition is required for while loop.".to_owned());
        }
        self.match_token(41)?;  // ')'
        let body = self.stmt(Ghost((f - 1) as nat))?;
        let stm = WhileStmt::new_box(ex, body)?;
        Ok(stm)
    }

    /// Parses a do-while loop: the `DO` case of `stmt_s`.
    #[verifier::rlimit(100)]
    #[verifier::spinoff_prover]
    fn do_stmt(&mut self, Ghost(f): Ghost<nat>) -> (r: Result<Box<Statement>, String>)
        requires
            pwf(old(self)@),
            token_tag(old(self)@.look) == 259,
            f >= 16 * pm(old(self)@) + 13,
        ensures
            pwf(final(self)@),
            r is Ok ==> final(self)@.env.len() == old(self)@.env.len(),
            pm(final(self)@) <= pm(old(self)@),
            r is Ok ==> pm(final(self)@) < pm(old(self)@),
            ({
                let (res, p2) = do_s(old(self)@, f);
                final(self)@ == p2 && match (r, res) {
                    (Ok(x), Ok(v)) => x@ == v && wf_stmt(v),
                    (Err(m), Err(e)) => m@ == e,
                    _ => false,
                }
            }),
        decreases f, 0int,
    {
        self.match_token(259)?;  // DO
        let body = self.stmt(Ghost((f - 1) as nat))?;
        self.do_rest(body, Ghost(f))
    }

    /// Parses the `while ( bool ) ;` trailer of a do-while loop, exactly
    /// as `do_rest_s` states it.
    #[verifier::rlimit(100)]
    #[verifier::spinoff_prover]
    fn do_rest(&mut self, body: Box<Statement>, Ghost(f): Ghost<nat>) -> (r: Result<
        Box<Statement>,
        String,
    >)
        requires
            pwf(old(self)@),
            wf_stmt(body@),
            f >= 16 * pm(old(self)@) + 11,
        ensures
            pwf(final(self)@),
            r is Ok ==> final(self)@.env.len() == old(self)@.env.len(),
            pm(final(self)@) <= pm(old(self)@),
            ({
                let (res, p2) = do_rest_s(body@, old(self)@, f);
                final(self)@ == p2 && match (r, res) {
                    (Ok(x), Ok(v)) => x@ == v && wf_stmt(v),
                    (Err(m), Err(e)) => m@ == e,
                    _ => false,
                }
            }),
    {
        self.match_token(275)?;  // WHILE
        self.match_token(40)?;  // '('
        let ex = self.boolean(Ghost((f - 1) as nat))?;
        let bt = Type::boolean();
        let ext = ex.typ();
        if !crate::types::types_equal(&ext, &bt) {
            return Err("Expression in boolean condition is required for while loop.".to_owned());
        }
        self.match_token(41)?;  // ')'
        self.match_token(59)?;  // ';'
        let stm = DoStmt::new_box(ex, body)?;
        Ok(stm)
    }

    /// Parses one assignment statement, exactly as `assign_s` states it.
    #[verifier::rlimit(100)]
    #[verifier::spinoff_prover]
    fn assign(&mut self, Ghost(f): Ghost<nat>) -> (r: Result<Box<Statement>, String>)
        requires
            pwf(old(self)@),
            f >= 16 * pm(old(self)@) + 11,
        ensures
            pwf(final(self)@),
            r is Ok ==> final(self)@.env.len() == old(self)@.env.len(),
            pm(final(self)@) <= pm(old(self)@),
            r is Ok ==> pm(final(self)@) < pm(old(self)@),
            ({
                let (res, p2) = assign_s(old(self)@, f);
                final(self)@ == p2 && match (r, res) {
                    (Ok(x), Ok(v)) => x@ == v && wf_stmt(v),
                    (Err(m), Err(e)) => m@ == e,
                    _ => false,
                }
            }),
        decreases f, 1int,
    {
        let tok = self.lookahead.duplicate();
        self.match_token(264)?;  // ID
        let key = tok.to_text();
        let id = self.top.get(key.as_str())?;
        if self.lookahead.match_tag(61) {  // '='
            self.next();
            let ex = self.boolean(Ghost((f - 1) as nat))?;
            let stm = AssignStmt::new_box(Box::new(id), ex)?;
            self.match_token(59)?;  // ';'
            return Ok(stm);
        }
        let access = self.offset(id, Ghost((f - 1) as nat))?;
        self.match_token(61)?;  // '='
        let ex = self.boolean(Ghost((f - 1) as nat))?;
        let stm = AssingArrayStmt::new_box(Box::new(access), ex)?;
        self.match_token(59)?;  // ';'
        Ok(stm)
    }

    /// Parses one braced block in a scope of its own, exactly as
    /// `block_s` states it.
    #[verifier::rlimit(100)]
    #[verifier::spinoff_prover]
    fn block(&mut self, Ghost(f): Ghost<nat>) -> (r: Result<Box<Statement>, String>)
        requires
            pwf(old(self)@),
            f >= 16 * pm(old(self)@) + 12,
        ensures
            pwf(final(self)@),
            r is Ok ==> final(self)@.env.len() == old(self)@.env.len(),
            pm(final(self)@) <= pm(old(self)@),
            r is Ok ==> pm(final(self)@) < pm(old(self)@),
            ({
                let (res, p2) = block_s(old(self)@, f);
                final(self)@ == p2 && match (r, res) {
                    (Ok(x), Ok(v)) => x@ == v && wf_stmt(v),
                    (Err(m), Err(e)) => m@ == e,
                    _ => false,
                }
            }),
        decreases f, 2int,
    {
        let ghost p0 = self@;
        self.match_token(123)?;  // '{'
        let ghost p1v = self@;
        self.open_scope();
        let ghost pushedv = self@;
        proof {
            assert(pushedv == (PView {
                lex: p1v.lex,
                look: p1v.look,
                env: p1v.env + seq![Seq::<(Seq<char>, IdentV)>::empty()],
                used: p1v.used,
            }));
            assert(block_s(p0, f).1 == block_rest_s(pushedv, f).1);
        }
        let r = self.block_rest(Ghost(f));
        proof {
            let (res, p2) = block_s(p0, f);
            let (res2, q2) = block_rest_s(pushedv, f);
            assert(p2 == q2 && res == res2);
        }
        r
    }

    /// Opens a fresh innermost scope, leaving the rest of the state
    /// untouched.
    fn open_scope(&mut self)
        ensures
            final(self)@ == (PView {
                lex: old(self)@.lex,
                look: old(self)@.look,
                env: old(self)@.env + seq![Seq::<(Seq<char>, IdentV)>::empty()],
                used: old(self)@.used,
            }),
            pm(final(self)@) == pm(old(self)@),
            final(self)@.env.len() == old(self)@.env.len() + 1,
    {
        let ghost popen = self@;
        let mut held = Environment::empty();
        core::mem::swap(&mut self.top, &mut held);
        self.top = Environment::new(held);
        proof {
            assert(self@ == (PView {
                lex: popen.lex,
                look: popen.look,
                env: popen.env + seq![Seq::<(Seq<char>, IdentV)>::empty()],
                used: popen.used,
            }));
        }
    }

    /// Parses the inside of a block whose scope is already open, exactly
    /// as `block_rest_s` states it.
    #[verifier::rlimit(100)]
    #[verifier::spinoff_prover]
    fn block_rest(&mut self, Ghost(f): Ghost<nat>) -> (r: Result<Box<Statement>, String>)
        requires
            pwf(old(self)@),
            old(self)@.env.len() >= 2,
            f >= 16 * pm(old(self)@) + 15,
        ensures
            pwf(final(self)@),
            r is Ok ==> final(self)@.env.len() == old(self)@.env.len() - 1,
            pm(final(self)@) <= pm(old(self)@),
            ({
                let (res, p2) = block_rest_s(old(self)@, f);
                final(self)@ == p2 && match (r, res) {
                    (Ok(x), Ok(v)) => x@ == v && wf_stmt(v),
                    (Err(m), Err(e)) => m@ == e,
                    _ => false,
                }
            }),
        decreases f, 1int,
    {
        self.decls(Ghost((f - 1) as nat))?;
        self.block_tail(Ghost(f))
    }

    /// Parses the statements and closing brace of a block, exactly as
    /// `block_tail_s` states it.
    #[verifier::rlimit(100)]
    #[verifier::spinoff_prover]
    fn block_tail(&mut self, Ghost(f): Ghost<nat>) -> (r: Result<Box<Statement>, String>)
        requires
            pwf(old(self)@),
            old(self)@.env.len() >= 2,
            f >= 16 * pm(old(self)@) + 15,
        ensures
            pwf(final(self)@),
            r is Ok ==> final(self)@.env.len() == old(self)@.env.len() - 1,
            pm(final(self)@) <= pm(old(self)@),
            ({
                let (res, p2) = block_tail_s(old(self)@, f);
                final(self)@ == p2 && match (r, res) {
                    (Ok(x), Ok(v)) => x@ == v && wf_stmt(v),
                    (Err(m), Err(e)) => m@ == e,
                    _ => false,
                }
            }),
        decreases f, 0int,
    {
        let body = self.stmts(Ghost((f - 1) as nat))?;
        self.close_block()?;
        Ok(body)
    }

    /// Matches the closing brace of a block and drops its scope, exactly
    /// as `close_s` states it.
    #[verifier::rlimit(100)]
    #[verifier::spinoff_prover]
    fn close_block(&mut self) -> (r: Result<(), String>)
        requires
            pwf(old(self)@),
            old(self)@.env.len() >= 2,
        ensures
            pwf(final(self)@),
            r is Ok ==> final(self)@.env.len() == old(self)@.env.len() - 1,
            pm(final(self)@) <= pm(old(self)@),
            ({
                let (res, p2) = close_s(old(self)@);
                final(self)@ == p2 && match (r, res) {
                    (Ok(_), Ok(_)) => true,
                    (Err(m), Err(e)) => m@ == e,
                    _ => false,
                }
            }),
    {
        self.match_token(125)?;  // '}'
        let ghost pend = self@;
        match self.top.pop() {
            Ok(()) => {},
            Err(m) => {
                proof {
                    assert(false);
                }
                return Err(m);
            },
        }
        proof {
            assert(self@.env =~~= pend.env.drop_last());
            assert(self@ == (PView {
                lex: pend.lex,
                look: pend.look,
                env: pend.env.drop_last(),
                used: pend.used,
            }));
        }
        Ok(())
    }

    /// Drives a parsed root statement: places the begin label, flattens
    /// the statement, and places the after label, exactly as `drive_s`
    /// states it.
    #[verifier::rlimit(100)]
    #[verifier::spinoff_prover]
    fn drive(stm: &Statement, s: &mut String, g: &mut NameGen) -> (r: Result<(), String>)
        requires
            wf_stmt(stm@),
        ensures
            ({
                let (res, text, g2) = drive_s(stm@, *old(g));
                final(s)@ == old(s)@ + text && *final(g) == g2 && match (r, res) {
                    (Ok(_), Ok(_)) => true,
                    (Err(m), Err(e)) => m@ == e,
                    _ => false,
                }
            }),
    {
        let ghost b0 = s@;
        let ghost g0 = *g;
        let begin = new_label(g);
        let after = new_label(g);
        emit_label(s, begin);
        let ghost g2v = *g;
        match stm.generate(s, begin, after, 0, g) {
            Ok(()) => {},
            Err(m) => {
                proof {
                    let so = sgen_s(stm@, begin, after, 0, g2v);
                    assert(s@ =~= b0 + label_text(begin) + so.text);
                }
                return Err(m);
            },
        }
        emit_label(s, after);
        proof {
            let so = sgen_s(stm@, begin, after, 0, g2v);
            assert(s@ =~= b0 + label_text(begin) + so.text + label_text(after));
        }
        Ok(())
    }

    /// Compiles one whole program: parses the root block and drives it
    /// between a begin and an after label, exactly as `program_s` states
    /// it. A parse error emits nothing; a break with no enclosing loop
    /// reports itself and leaves the text emitted up to it.
    #[verifier::rlimit(100)]
    #[verifier::spinoff_prover]
    pub fn program(&mut self, s: &mut String, g: &mut NameGen) -> (r: Result<(), String>)
        requires
            pwf(old(self)@),
        ensures
            pwf(final(self)@),
            ({
                let o = program_s(old(self)@, *old(g));
                final(self)@ == o.p && *final(g) == o.g && final(s)@ == old(s)@ + o.text && match (
                r,
                o.res,
                ) {
                    (Ok(_), Ok(_)) => true,
                    (Err(m), Err(e)) => m@ == e,
                    _ => false,
                }
            }),
    {
        let stm = match self.block(Ghost(prog_fuel(self@))) {
            Ok(stm) => stm,
            Err(m) => {
                return Err(m);
            },
        };
        Parser::drive(&stm, s, g)
    }
}

} // verus!
