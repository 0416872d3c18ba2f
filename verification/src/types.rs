//! The type model: simple types with a byte width, array types, and the
//! numeric promotion rule.
use vstd::prelude::*;
use crate::tokens::{Tag, Token, TokenV, token_text};
use crate::text::str_eq;

verus! {

/// The mathematical shape of a type.
pub enum TypeV {
    Simple { lexeme: Seq<char>, width: u8 },
    Array { of: Box<TypeV>, length: u32 },
}

/// A source-language type: a named simple type with its byte width, or an
/// array of a fixed length.
#[derive(Debug)]
pub enum Type {
    Simple { lexeme: String, width: u8 },
    Array { of: Box<Type>, length: u32 },
}

impl View for Type {
    type V = TypeV;

    open spec fn view(&self) -> TypeV
        decreases self,
    {
        match self {
            Type::Simple { lexeme, width } => TypeV::Simple { lexeme: lexeme@, width: *width },
            Type::Array { of, length } => TypeV::Array {
                of: Box::new((**of).view()),
                length: *length,
            },
        }
    }
}

/// The canonical `int` type, four bytes wide.
pub open spec fn int_type() -> TypeV {
    TypeV::Simple { lexeme: "int"@, width: 4u8 }
}

/// The canonical `float` type, eight bytes wide.
pub open spec fn float_type() -> TypeV {
    TypeV::Simple { lexeme: "float"@, width: 8u8 }
}

/// The canonical `char` type, one byte wide.
pub open spec fn char_type() -> TypeV {
    TypeV::Simple { lexeme: "char"@, width: 1u8 }
}

/// The canonical `bool` type, one byte wide.
pub open spec fn bool_type() -> TypeV {
    TypeV::Simple { lexeme: "bool"@, width: 1u8 }
}

/// Structural type equality: same shape, same lexeme and width, same
/// element type and length.
pub open spec fn type_eq(a: TypeV, b: TypeV) -> bool
    decreases a,
{
    match a {
        TypeV::Simple { lexeme, width } => match b {
            TypeV::Simple { lexeme: olex, width: ow } => width == ow && lexeme == olex,
            _ => false,
        },
        TypeV::Array { of, length } => match b {
            TypeV::Array { of: oof, length: olen } => length == olen && type_eq(*of, *oof),
            _ => false,
        },
    }
}

/// Type equality is exactly equality of the mathematical shapes.
pub proof fn lemma_type_eq_is_eq(a: TypeV, b: TypeV)
    ensures
        type_eq(a, b) <==> a == b,
    decreases a,
{
    match a {
        TypeV::Simple { .. } => {},
        TypeV::Array { of, length } => {
            match b {
                TypeV::Array { of: oof, length: olen } => {
                    lemma_type_eq_is_eq(*of, *oof);
                },
                _ => {},
            }
        },
    }
}

/// Type equality holds between any type and itself.
pub proof fn lemma_type_eq_refl(a: TypeV)
    ensures
        type_eq(a, a),
    decreases a,
{
    match a {
        TypeV::Array { of, .. } => lemma_type_eq_refl(*of),
        _ => {},
    }
}

/// The byte width of a value of this type; array widths multiply with
/// 32-bit wrap-around.
pub open spec fn type_width(t: TypeV) -> u32
    decreases t,
{
    match t {
        TypeV::Simple { lexeme: _, width } => width as u32,
        TypeV::Array { of, length } => vstd::wrapping::u32_specs::wrapping_mul(
            type_width(*of),
            length,
        ),
    }
}

/// Whether a type takes part in numeric promotion: a simple type named
/// `int`, `float` or `char`.
pub open spec fn type_is_numeric(t: TypeV) -> bool {
    match t {
        TypeV::Simple { lexeme, width: _ } => lexeme == "int"@ || lexeme == "float"@ || lexeme
            == "char"@,
        _ => false,
    }
}

/// The numeric promotion rule: no answer unless both sides are numeric;
/// `float` wins over `int`, which wins over `char`.
pub open spec fn max_type_s(a: TypeV, b: TypeV) -> Option<TypeV> {
    if !type_is_numeric(a) || !type_is_numeric(b) {
        None
    } else if type_eq(a, float_type()) || type_eq(b, float_type()) {
        Some(float_type())
    } else if type_eq(a, int_type()) || type_eq(b, int_type()) {
        Some(int_type())
    } else {
        Some(char_type())
    }
}

/// The type a type token denotes, if it is one.
pub open spec fn type_of_token(t: TokenV) -> Option<TypeV>
    decreases t,
{
    match t {
        TokenV::SimpleType(lex, w) => Some(TypeV::Simple { lexeme: lex, width: w }),
        TokenV::Array(of, len) => match type_of_token(*of) {
            Some(o) => Some(TypeV::Array { of: Box::new(o), length: len }),
            None => None,
        },
        _ => None,
    }
}

/// The token that denotes this type.
pub open spec fn type_token(t: TypeV) -> TokenV
    decreases t,
{
    match t {
        TypeV::Simple { lexeme, width } => TokenV::SimpleType(lexeme, width),
        TypeV::Array { of, length } => TokenV::Array(Box::new(type_token(*of)), length),
    }
}

/// The innermost token a failed type reading reports: reading descends
/// through array tokens, so the offending token is the innermost one.
pub open spec fn bad_type_token(t: TokenV) -> TokenV
    decreases t,
{
    match t {
        TokenV::Array(of, _) => bad_type_token(*of),
        _ => t,
    }
}

impl vstd::std_specs::cmp::PartialEqSpecImpl for Type {
    open spec fn obeys_eq_spec() -> bool {
        true
    }

    open spec fn eq_spec(&self, other: &Type) -> bool {
        type_eq(self@, other@)
    }
}

/// Decides structural type equality, as `type_eq` states it.
pub fn types_equal(a: &Type, b: &Type) -> (r: bool)
    ensures
        r == type_eq(a@, b@),
    decreases a,
{
    match a {
        Type::Simple { lexeme, width } => match b {
            Type::Simple { lexeme: olex, width: ow } => *width == *ow && *lexeme == *olex,
            _ => false,
        },
        Type::Array { of, length } => match b {
            Type::Array { of: oof, length: olen } => *length == *olen && types_equal(
                &**of,
                &**oof,
            ),
            _ => false,
        },
    }
}

impl PartialEq for Type {
    fn eq(&self, other: &Type) -> (r: bool) {
        types_equal(self, other)
    }
}

impl Type {
    /// Reads a type from its token; any other token is rejected.
    pub fn new(tok: &Token) -> (r: Result<Type, String>)
        ensures
            match r {
                Ok(t) => type_of_token(tok@) == Some(t@),
                Err(m) => type_of_token(tok@) is None && m@ == "Invalid parameters: "@
                    + token_text(bad_type_token(tok@)),
            },
        decreases tok,
    {
        match tok {
            Token::SimpleType(lex, w) => Ok(
                Type::Simple { lexeme: lex.clone(), width: *w },
            ),
            Token::Array(of, len) => {
                let o = Type::new(&**of)?;
                Ok(Type::Array { of: Box::new(o), length: *len })
            },
            _ => {
                let mut m = "Invalid parameters: ".to_owned();
                tok.push_text(&mut m);
                Err(m)
            },
        }
    }

    /// An array type over the given element type and length.
    pub fn array(of: Type, size: u32) -> (r: Type)
        ensures
            r@ == (TypeV::Array { of: Box::new(of@), length: size }),
    {
        Type::Array { of: Box::new(of), length: size }
    }

    /// The canonical `int` type.
    pub fn integer() -> (r: Type)
        ensures
            r@ == int_type(),
    {
        Type::Simple { lexeme: "int".to_owned(), width: 4 }
    }

    /// The canonical `float` type.
    pub fn float() -> (r: Type)
        ensures
            r@ == float_type(),
    {
        Type::Simple { lexeme: "float".to_owned(), width: 8 }
    }

    /// The canonical `char` type.
    pub fn ch() -> (r: Type)
        ensures
            r@ == char_type(),
    {
        Type::Simple { lexeme: "char".to_owned(), width: 1 }
    }

    /// The canonical `bool` type.
    pub fn boolean() -> (r: Type)
        ensures
            r@ == bool_type(),
    {
        Type::Simple { lexeme: "bool".to_owned(), width: 1 }
    }

    /// The token that denotes this type.
    pub fn token(&self) -> (r: Token)
        ensures
            r@ == type_token(self@),
        decreases self,
    {
        match self {
            Type::Simple { lexeme, width } => Token::SimpleType(lexeme.clone(), *width),
            Type::Array { of, length } => Token::Array(Box::new((**of).token()), *length),
        }
    }

    /// The parser category of this type's token.
    pub fn tag(&self) -> (r: Tag)
        ensures
            r == (match self@ {
                TypeV::Simple { .. } => Tag::BASIC,
                TypeV::Array { .. } => Tag::INDEX,
            }),
    {
        match self {
            Type::Simple { .. } => Tag::BASIC,
            Type::Array { .. } => Tag::INDEX,
        }
    }

    /// The byte width of a value of this type.
    pub fn width(&self) -> (r: u32)
        ensures
            r == type_width(self@),
        decreases self,
    {
        match self {
            Type::Simple { lexeme: _, width } => *width as u32,
            Type::Array { of, length } => (**of).width().wrapping_mul(*length),
        }
    }

    /// Whether this type takes part in numeric promotion.
    pub fn is_numeric(&self) -> (r: bool)
        ensures
            r == type_is_numeric(self@),
    {
        match self {
            Type::Simple { lexeme, width: _ } => str_eq(lexeme.as_str(), "int") || str_eq(
                lexeme.as_str(),
                "float",
            ) || str_eq(lexeme.as_str(), "char"),
            _ => false,
        }
    }

    /// The promoted type of two operands, as `max_type_s` states it.
    pub fn max_type(left: &Type, right: &Type) -> (r: Option<Type>)
        ensures
            (r is Some) == (max_type_s(left@, right@) is Some),
            r is Some ==> r.unwrap()@ == max_type_s(left@, right@).unwrap(),
    {
        if !left.is_numeric() || !right.is_numeric() {
            return None;
        }
        let f = Type::float();
        if types_equal(left, &f) || types_equal(right, &f) {
            return Some(f);
        }
        let i = Type::integer();
        if types_equal(left, &i) || types_equal(right, &i) {
            return Some(i);
        }
        Some(Type::ch())
    }

    /// An exact copy of this type.
    pub fn duplicate(&self) -> (r: Type)
        ensures
            r@ == self@,
        decreases self,
    {
        match self {
            Type::Simple { lexeme, width } => Type::Simple { lexeme: lexeme.clone(), width: *width },
            Type::Array { of, length } => Type::Array {
                of: Box::new((**of).duplicate()),
                length: *length,
            },
        }
    }
}

} // verus!
