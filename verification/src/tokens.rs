//! The token model: parser categories (tags), the tagged token union, its
//! printed form, and structural equality.
use vstd::prelude::*;
use crate::text::{dec_digits, int_text, push_char, push_i64, push_u64, str_eq};

verus! {

/// Parser categories. Single punctuation bytes use their byte value as the
/// tag, so named categories start at 256; the end-of-input tag is the
/// largest 32-bit value.
#[derive(Clone, Copy, Debug, PartialEq, Eq, Structural)]
pub enum Tag {
    AND,
    BASIC,
    BREAK,
    DO,
    ELSE,
    EQ,
    FALSE,
    GE,
    ID,
    IF,
    INDEX,
    LE,
    MINUS,
    NE,
    INTEGER,
    OR,
    REAL,
    TEMP,
    TRUE,
    WHILE,
    EOF,
}

/// The numeric value of a tag, used by parser predicates.
pub open spec fn tag_value(t: Tag) -> u32 {
    match t {
        Tag::AND => 256,
        Tag::BASIC => 257,
        Tag::BREAK => 258,
        Tag::DO => 259,
        Tag::ELSE => 260,
        Tag::EQ => 261,
        Tag::FALSE => 262,
        Tag::GE => 263,
        Tag::ID => 264,
        Tag::IF => 265,
        Tag::INDEX => 266,
        Tag::LE => 267,
        Tag::MINUS => 268,
        Tag::NE => 269,
        Tag::INTEGER => 270,
        Tag::OR => 271,
        Tag::REAL => 272,
        Tag::TEMP => 273,
        Tag::TRUE => 274,
        Tag::WHILE => 275,
        Tag::EOF => 0xFFFF_FFFFu32,
    }
}

impl Tag {
    /// The numeric value of this tag.
    pub fn value(self) -> (r: u32)
        ensures
            r == tag_value(self),
    {
        match self {
            Tag::AND => 256,
            Tag::BASIC => 257,
            Tag::BREAK => 258,
            Tag::DO => 259,
            Tag::ELSE => 260,
            Tag::EQ => 261,
            Tag::FALSE => 262,
            Tag::GE => 263,
            Tag::ID => 264,
            Tag::IF => 265,
            Tag::INDEX => 266,
            Tag::LE => 267,
            Tag::MINUS => 268,
            Tag::NE => 269,
            Tag::INTEGER => 270,
            Tag::OR => 271,
            Tag::REAL => 272,
            Tag::TEMP => 273,
            Tag::TRUE => 274,
            Tag::WHILE => 275,
            Tag::EOF => 0xFFFF_FFFFu32,
        }
    }
}

/// The mathematical shape of a token: lexemes are character sequences.
pub enum TokenV {
    Tok(u8),
    Word(Seq<char>, Tag),
    And,
    Or,
    Equality,
    Ne,
    Le,
    Ge,
    Integer(i64),
    Real(Seq<char>),
    SimpleType(Seq<char>, u8),
    Array(Box<TokenV>, u32),
    Eof,
}

/// A scanned token. A real literal carries its printed decimal text, which
/// is what equality and emission read of it.
#[derive(Debug)]
pub enum Token {
    Tok(u8),
    Word(String, Tag),
    And,
    Or,
    Equality,
    Ne,
    Le,
    Ge,
    Integer(i64),
    Real(String),
    SimpleType(String, u8),
    Array(Box<Token>, u32),
    Eof,
}

impl View for Token {
    type V = TokenV;

    open spec fn view(&self) -> TokenV
        decreases self,
    {
        match self {
            Token::Tok(b) => TokenV::Tok(*b),
            Token::Word(lex, tag) => TokenV::Word(lex@, *tag),
            Token::And => TokenV::And,
            Token::Or => TokenV::Or,
            Token::Equality => TokenV::Equality,
            Token::Ne => TokenV::Ne,
            Token::Le => TokenV::Le,
            Token::Ge => TokenV::Ge,
            Token::Integer(v) => TokenV::Integer(*v),
            Token::Real(text) => TokenV::Real(text@),
            Token::SimpleType(lex, w) => TokenV::SimpleType(lex@, *w),
            Token::Array(of, len) => TokenV::Array(Box::new((**of).view()), *len),
            Token::Eof => TokenV::Eof,
        }
    }
}

/// The numeric tag of a token: the byte itself for punctuation, the
/// category value otherwise.
pub open spec fn token_tag(t: TokenV) -> u32 {
    match t {
        TokenV::Tok(b) => b as u32,
        TokenV::Word(_, tag) => tag_value(tag),
        TokenV::And => tag_value(Tag::AND),
        TokenV::Or => tag_value(Tag::OR),
        TokenV::Equality => tag_value(Tag::EQ),
        TokenV::Ne => tag_value(Tag::NE),
        TokenV::Le => tag_value(Tag::LE),
        TokenV::Ge => tag_value(Tag::GE),
        TokenV::Integer(_) => tag_value(Tag::INTEGER),
        TokenV::Real(_) => tag_value(Tag::REAL),
        TokenV::SimpleType(_, _) => tag_value(Tag::BASIC),
        TokenV::Array(_, _) => tag_value(Tag::INDEX),
        TokenV::Eof => tag_value(Tag::EOF),
    }
}

/// The printed form of a token, as it appears in emitted code.
pub open spec fn token_text(t: TokenV) -> Seq<char>
    decreases t,
{
    match t {
        TokenV::Tok(b) => seq![b as char],
        TokenV::Word(lex, _) => lex,
        TokenV::And => seq!['&', '&'],
        TokenV::Or => seq!['|', '|'],
        TokenV::Equality => seq!['=', '='],
        TokenV::Ne => seq!['!', '='],
        TokenV::Le => seq!['<', '='],
        TokenV::Ge => seq!['>', '='],
        TokenV::Integer(v) => int_text(v as int),
        TokenV::Real(text) => text,
        TokenV::SimpleType(lex, _) => lex,
        TokenV::Array(of, len) => seq!['['] + dec_digits(len as nat) + seq![']'] + token_text(*of),
        TokenV::Eof => seq!['\0'],
    }
}

/// The token for the type name `int`.
pub open spec fn int_type_token() -> TokenV {
    TokenV::SimpleType("int"@, 4u8)
}

/// The token for the type name `float`.
pub open spec fn float_type_token() -> TokenV {
    TokenV::SimpleType("float"@, 8u8)
}

/// The token for the type name `char`.
pub open spec fn char_type_token() -> TokenV {
    TokenV::SimpleType("char"@, 1u8)
}

/// The token for the type name `bool`.
pub open spec fn bool_type_token() -> TokenV {
    TokenV::SimpleType("bool"@, 1u8)
}

/// The keyword `true`.
pub open spec fn true_word() -> TokenV {
    TokenV::Word("true"@, Tag::TRUE)
}

/// The keyword `false`.
pub open spec fn false_word() -> TokenV {
    TokenV::Word("false"@, Tag::FALSE)
}

/// What interning an identifier lexeme yields: keywords and type names map
/// to their canonical tokens, anything else to an identifier word.
pub open spec fn keyword_token(lex: Seq<char>) -> TokenV {
    if lex == "if"@ {
        TokenV::Word(lex, Tag::IF)
    } else if lex == "else"@ {
        TokenV::Word(lex, Tag::ELSE)
    } else if lex == "while"@ {
        TokenV::Word(lex, Tag::WHILE)
    } else if lex == "do"@ {
        TokenV::Word(lex, Tag::DO)
    } else if lex == "break"@ {
        TokenV::Word(lex, Tag::BREAK)
    } else if lex == "true"@ {
        TokenV::Word(lex, Tag::TRUE)
    } else if lex == "false"@ {
        TokenV::Word(lex, Tag::FALSE)
    } else if lex == "int"@ {
        int_type_token()
    } else if lex == "float"@ {
        float_type_token()
    } else if lex == "char"@ {
        char_type_token()
    } else if lex == "bool"@ {
        bool_type_token()
    } else {
        TokenV::Word(lex, Tag::ID)
    }
}

/// Structural token equality. Lexeme-bearing variants compare their parts;
/// real literals compare by their printed text; the remaining variants
/// compare by tag.
pub open spec fn token_eq(a: TokenV, b: TokenV) -> bool
    decreases a,
{
    match a {
        TokenV::Word(lex, tag) => match b {
            TokenV::Word(olex, otag) => lex == olex && tag == otag,
            _ => false,
        },
        TokenV::Integer(v) => match b {
            TokenV::Integer(ov) => v == ov,
            _ => false,
        },
        TokenV::Real(text) => match b {
            TokenV::Real(otext) => text == otext,
            _ => false,
        },
        TokenV::SimpleType(lex, w) => match b {
            TokenV::SimpleType(olex, ow) => lex == olex && w == ow,
            _ => false,
        },
        TokenV::Array(of, len) => match b {
            TokenV::Array(oof, olen) => token_eq(*of, *oof) && len == olen,
            _ => false,
        },
        _ => token_tag(a) == token_tag(b),
    }
}

/// Token equality holds between any token and itself.
pub proof fn lemma_token_eq_refl(a: TokenV)
    ensures
        token_eq(a, a),
    decreases a,
{
    match a {
        TokenV::Array(of, _) => lemma_token_eq_refl(*of),
        _ => {},
    }
}

impl vstd::std_specs::cmp::PartialEqSpecImpl for Token {
    open spec fn obeys_eq_spec() -> bool {
        true
    }

    open spec fn eq_spec(&self, other: &Token) -> bool {
        token_eq(self@, other@)
    }
}

/// Decides structural token equality, as `token_eq` states it.
pub fn token_equal(a: &Token, b: &Token) -> (r: bool)
    ensures
        r == token_eq(a@, b@),
    decreases a,
{
    match a {
        Token::Word(lex, tag) => match b {
            Token::Word(olex, otag) => *lex == *olex && *tag == *otag,
            _ => false,
        },
        Token::Integer(v) => match b {
            Token::Integer(ov) => *v == *ov,
            _ => false,
        },
        Token::Real(text) => match b {
            Token::Real(otext) => *text == *otext,
            _ => false,
        },
        Token::SimpleType(lex, w) => match b {
            Token::SimpleType(olex, ow) => *lex == *olex && *w == *ow,
            _ => false,
        },
        Token::Array(of, len) => match b {
            Token::Array(oof, olen) => token_equal(&**of, &**oof) && *len == *olen,
            _ => false,
        },
        _ => a.tag() == b.tag(),
    }
}

impl PartialEq for Token {
    fn eq(&self, other: &Token) -> (r: bool) {
        token_equal(self, other)
    }
}

impl Token {
    /// The numeric tag used by parser predicates.
    pub fn tag(&self) -> (r: u32)
        ensures
            r == token_tag(self@),
    {
        match self {
            Token::Tok(b) => *b as u32,
            Token::Word(_, tag) => tag.value(),
            Token::And => Tag::AND.value(),
            Token::Or => Tag::OR.value(),
            Token::Equality => Tag::EQ.value(),
            Token::Ne => Tag::NE.value(),
            Token::Le => Tag::LE.value(),
            Token::Ge => Tag::GE.value(),
            Token::Integer(_) => Tag::INTEGER.value(),
            Token::Real(_) => Tag::REAL.value(),
            Token::SimpleType(_, _) => Tag::BASIC.value(),
            Token::Array(_, _) => Tag::INDEX.value(),
            Token::Eof => Tag::EOF.value(),
        }
    }

    /// Whether this token's tag equals the given tag value.
    pub fn match_tag(&self, tag: u32) -> (r: bool)
        ensures
            r == (token_tag(self@) == tag),
    {
        self.tag() == tag
    }

    /// An exact copy of this token.
    pub fn duplicate(&self) -> (r: Token)
        ensures
            r@ == self@,
        decreases self,
    {
        match self {
            Token::Tok(b) => Token::Tok(*b),
            Token::Word(lex, tag) => Token::Word(lex.clone(), *tag),
            Token::And => Token::And,
            Token::Or => Token::Or,
            Token::Equality => Token::Equality,
            Token::Ne => Token::Ne,
            Token::Le => Token::Le,
            Token::Ge => Token::Ge,
            Token::Integer(v) => Token::Integer(*v),
            Token::Real(text) => Token::Real(text.clone()),
            Token::SimpleType(lex, w) => Token::SimpleType(lex.clone(), *w),
            Token::Array(of, len) => Token::Array(Box::new((**of).duplicate()), *len),
            Token::Eof => Token::Eof,
        }
    }

    /// Appends this token's printed form to `s`.
    pub fn push_text(&self, s: &mut String)
        ensures
            final(s)@ == old(s)@ + token_text(self@),
        decreases self,
    {
        match self {
            Token::Tok(b) => push_char(s, *b as char),
            Token::Word(lex, _) => s.append(lex.as_str()),
            Token::And => {
                push_char(s, '&');
                push_char(s, '&');
            },
            Token::Or => {
                push_char(s, '|');
                push_char(s, '|');
            },
            Token::Equality => {
                push_char(s, '=');
                push_char(s, '=');
            },
            Token::Ne => {
                push_char(s, '!');
                push_char(s, '=');
            },
            Token::Le => {
                push_char(s, '<');
                push_char(s, '=');
            },
            Token::Ge => {
                push_char(s, '>');
                push_char(s, '=');
            },
            Token::Integer(v) => push_i64(s, *v),
            Token::Real(text) => s.append(text.as_str()),
            Token::SimpleType(lex, _) => s.append(lex.as_str()),
            Token::Array(of, len) => {
                push_char(s, '[');
                push_u64(s, *len as u64);
                push_char(s, ']');
                (**of).push_text(s);
            },
            Token::Eof => push_char(s, '\0'),
        }
        proof {
            assert(final(s)@ =~= old(s)@ + token_text(self@));
        }
    }

    /// The token for the type name `int`, four bytes wide.
    pub fn integer() -> (r: Token)
        ensures
            r@ == int_type_token(),
    {
        Token::SimpleType("int".to_owned(), 4)
    }

    /// The token for the type name `float`, eight bytes wide.
    pub fn float() -> (r: Token)
        ensures
            r@ == float_type_token(),
    {
        Token::SimpleType("float".to_owned(), 8)
    }

    /// The token for the type name `char`, one byte wide.
    pub fn ch() -> (r: Token)
        ensures
            r@ == char_type_token(),
    {
        Token::SimpleType("char".to_owned(), 1)
    }

    /// The token for the type name `bool`, one byte wide.
    pub fn boolean() -> (r: Token)
        ensures
            r@ == bool_type_token(),
    {
        Token::SimpleType("bool".to_owned(), 1)
    }

    /// The keyword `true`.
    pub fn true_token() -> (r: Token)
        ensures
            r@ == true_word(),
    {
        Token::Word("true".to_owned(), Tag::TRUE)
    }

    /// The keyword `false`.
    pub fn false_token() -> (r: Token)
        ensures
            r@ == false_word(),
    {
        Token::Word("false".to_owned(), Tag::FALSE)
    }

    /// The word that names compiler temporaries; they print as `t<n>`.
    pub fn temp_word() -> (r: Token)
        ensures
            r@ == TokenV::Word("t"@, Tag::TEMP),
    {
        Token::Word("t".to_owned(), Tag::TEMP)
    }

    /// The word that names array access operations.
    pub fn access_word() -> (r: Token)
        ensures
            r@ == TokenV::Word("[]"@, Tag::INDEX),
    {
        Token::Word("[]".to_owned(), Tag::INDEX)
    }

    /// The word for the `==` operator.
    pub fn eq_word() -> (r: Token)
        ensures
            r@ == TokenV::Word("=="@, Tag::EQ),
    {
        Token::Word("==".to_owned(), Tag::EQ)
    }

    /// The word for the `||` operator.
    pub fn or_word() -> (r: Token)
        ensures
            r@ == TokenV::Word("||"@, Tag::OR),
    {
        Token::Word("||".to_owned(), Tag::OR)
    }

    /// The word for the `&&` operator.
    pub fn and_word() -> (r: Token)
        ensures
            r@ == TokenV::Word("&&"@, Tag::AND),
    {
        Token::Word("&&".to_owned(), Tag::AND)
    }

    /// The word for unary minus.
    pub fn minus_word() -> (r: Token)
        ensures
            r@ == TokenV::Word("-"@, Tag::MINUS),
    {
        Token::Word("-".to_owned(), Tag::MINUS)
    }

    /// Interns an identifier lexeme: a keyword or type name yields its
    /// canonical token, anything else an identifier word.
    pub fn from_str(ident: &str) -> (r: Token)
        ensures
            r@ == keyword_token(ident@),
    {
        if str_eq(ident, "if") {
            Token::Word(ident.to_owned(), Tag::IF)
        } else if str_eq(ident, "else") {
            Token::Word(ident.to_owned(), Tag::ELSE)
        } else if str_eq(ident, "while") {
            Token::Word(ident.to_owned(), Tag::WHILE)
        } else if str_eq(ident, "do") {
            Token::Word(ident.to_owned(), Tag::DO)
        } else if str_eq(ident, "break") {
            Token::Word(ident.to_owned(), Tag::BREAK)
        } else if str_eq(ident, "true") {
            Token::Word(ident.to_owned(), Tag::TRUE)
        } else if str_eq(ident, "false") {
            Token::Word(ident.to_owned(), Tag::FALSE)
        } else if str_eq(ident, "int") {
            Token::integer()
        } else if str_eq(ident, "float") {
            Token::float()
        } else if str_eq(ident, "char") {
            Token::ch()
        } else if str_eq(ident, "bool") {
            Token::boolean()
        } else {
            Token::Word(ident.to_owned(), Tag::ID)
        }
    }

    /// This token's printed form as a fresh string.
    pub fn to_text(&self) -> (r: String)
        ensures
            r@ == token_text(self@),
    {
        let mut s = String::new();
        self.push_text(&mut s);
        proof {
            assert(s@ =~= token_text(self@));
        }
        s
    }
}

} // verus!
