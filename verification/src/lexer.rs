//! The scanner: turns a byte buffer into a stream of tokens, one per call,
//! keeping one look-ahead byte and counting lines, and ending with an
//! end-of-input token.
use vstd::prelude::*;
use crate::tokens::{Token, TokenV, keyword_token};
use crate::text::{int_text, push_char, push_i64};

verus! {

/// The mathematical state of the scanner: the input, the reading position,
/// the look-ahead byte, and the line count.
pub struct LexV {
    pub input: Seq<u8>,
    pub pos: int,
    pub peek: u8,
    pub line: u32,
}

/// The scanner. The look-ahead byte starts as a space; a zero look-ahead
/// byte marks exhausted input.
pub struct Lexer {
    pub line: u32,
    pub peek: u8,
    pub pos: usize,
    pub input: Vec<u8>,
}

impl View for Lexer {
    type V = LexV;

    open spec fn view(&self) -> LexV {
        LexV { input: self.input@, pos: self.pos as int, peek: self.peek, line: self.line }
    }
}

/// The state after reading one byte: the byte becomes the look-ahead, or
/// zero when the input is exhausted.
pub open spec fn read_s(l: LexV) -> LexV {
    if l.pos < l.input.len() {
        LexV { input: l.input, pos: l.pos + 1, peek: l.input[l.pos], line: l.line }
    } else {
        LexV { input: l.input, pos: l.pos, peek: 0, line: l.line }
    }
}

/// The same state with another look-ahead byte.
pub open spec fn with_peek(l: LexV, p: u8) -> LexV {
    LexV { input: l.input, pos: l.pos, peek: p, line: l.line }
}

/// Whether a byte is an ASCII decimal digit.
pub open spec fn is_digit(b: u8) -> bool {
    48 <= b && b <= 57
}

/// Whether a byte is an ASCII letter.
pub open spec fn is_alpha(b: u8) -> bool {
    (97 <= b && b <= 122) || (65 <= b && b <= 90)
}

/// Whether a byte is an ASCII letter or digit.
pub open spec fn is_alnum(b: u8) -> bool {
    is_alpha(b) || is_digit(b)
}

/// The state after skipping blanks, tabs and carriage returns, counting
/// newlines; reading always advances first, as the scanner does.
pub open spec fn skip_ws_s(l: LexV) -> LexV
    decreases l.input.len() - l.pos,
{
    let l1 = read_s(l);
    if l1.pos > l.pos {
        if l1.peek == 32 || l1.peek == 9 || l1.peek == 13 {
            skip_ws_s(l1)
        } else if l1.peek == 10 {
            skip_ws_s(
                LexV {
                    input: l1.input,
                    pos: l1.pos,
                    peek: l1.peek,
                    line: vstd::wrapping::u32_specs::wrapping_add(l1.line, 1),
                },
            )
        } else {
            l1
        }
    } else {
        l1
    }
}

/// What probing for the second byte of a compound operator yields: a hit
/// consumes the byte, a miss keeps it as the look-ahead.
pub open spec fn read_ch_s(l: LexV, c: u8) -> (bool, LexV) {
    let l1 = read_s(l);
    if l1.peek != c {
        (false, l1)
    } else {
        (true, with_peek(l1, 32))
    }
}

/// The state after accumulating a decimal integer, with 64-bit
/// wrap-around, starting from the current digit look-ahead.
pub open spec fn read_int_s(l: LexV, val: i64) -> (i64, LexV)
    decreases l.input.len() - l.pos,
{
    let v2 = vstd::wrapping::i64_specs::wrapping_add(
        vstd::wrapping::i64_specs::wrapping_mul(val, 10),
        (l.peek - 48) as i64,
    );
    let l1 = read_s(l);
    if l1.pos > l.pos && is_digit(l1.peek) {
        read_int_s(l1, v2)
    } else {
        (v2, l1)
    }
}

/// The digits of a fractional part, in order, read until the first
/// non-digit; reading advances before each test, as the scanner does.
pub open spec fn read_frac_s(l: LexV, digits: Seq<u8>) -> (Seq<u8>, LexV)
    decreases l.input.len() - l.pos,
{
    let l1 = read_s(l);
    if l1.pos > l.pos && is_digit(l1.peek) {
        read_frac_s(l1, digits + seq![l1.peek])
    } else {
        (digits, l1)
    }
}

/// The lexeme accumulated from the current letter look-ahead through the
/// following letters and digits.
pub open spec fn read_ident_s(l: LexV, lex: Seq<char>) -> (Seq<char>, LexV)
    decreases l.input.len() - l.pos,
{
    let lex2 = lex + seq![l.peek as char];
    let l1 = read_s(l);
    if l1.pos > l.pos && is_alnum(l1.peek) {
        read_ident_s(l1, lex2)
    } else {
        (lex2, l1)
    }
}

/// Digit bytes as characters.
pub open spec fn bytes_chars(s: Seq<u8>) -> Seq<char>
    decreases s.len(),
{
    if s.len() == 0 {
        Seq::empty()
    } else {
        seq![s[0] as char] + bytes_chars(s.drop_first())
    }
}

/// The fractional digits without their trailing zeros.
pub open spec fn trim_zeros(s: Seq<u8>) -> Seq<u8>
    decreases s.len(),
{
    if s.len() > 0 && s[s.len() - 1] == 48 {
        trim_zeros(s.drop_last())
    } else {
        s
    }
}

/// The printed text of a real literal: the integer part, then the
/// fractional digits with trailing zeros dropped, with no decimal point
/// when nothing remains of them.
pub open spec fn real_text(val: i64, digits: Seq<u8>) -> Seq<char> {
    let t = trim_zeros(digits);
    if t.len() == 0 {
        int_text(val as int)
    } else {
        int_text(val as int) + seq!['.'] + bytes_chars(t)
    }
}

/// What one scan yields: the next token and the scanner state after it.
/// A retained look-ahead byte comes back first; then whitespace is
/// skipped; then compound operators, numbers, words and single bytes are
/// recognized; exhausted input yields the end token, for ever after.
pub open spec fn scan_s(l: LexV) -> (TokenV, LexV) {
    if l.peek != 32 {
        if l.peek == 0 {
            (TokenV::Eof, l)
        } else {
            (TokenV::Tok(l.peek), with_peek(l, 32))
        }
    } else {
        let l2 = skip_ws_s(l);
        if l2.peek == 0 {
            (TokenV::Eof, l2)
        } else if l2.peek == 38 {
            let (hit, l3) = read_ch_s(l2, 38);
            if hit {
                (TokenV::And, l3)
            } else {
                (TokenV::Tok(38), l3)
            }
        } else if l2.peek == 124 {
            let (hit, l3) = read_ch_s(l2, 124);
            if hit {
                (TokenV::Or, l3)
            } else {
                (TokenV::Tok(124), l3)
            }
        } else if l2.peek == 61 {
            let (hit, l3) = read_ch_s(l2, 61);
            if hit {
                (TokenV::Equality, l3)
            } else {
                (TokenV::Tok(61), l3)
            }
        } else if l2.peek == 33 {
            let (hit, l3) = read_ch_s(l2, 61);
            if hit {
                (TokenV::Ne, l3)
            } else {
                (TokenV::Tok(33), l3)
            }
        } else if l2.peek == 60 {
            let (hit, l3) = read_ch_s(l2, 61);
            if hit {
                (TokenV::Le, l3)
            } else {
                (TokenV::Tok(60), l3)
            }
        } else if l2.peek == 62 {
            let (hit, l3) = read_ch_s(l2, 61);
            if hit {
                (TokenV::Ge, l3)
            } else {
                (TokenV::Tok(62), l3)
            }
        } else if is_digit(l2.peek) {
            let (val, l3) = read_int_s(l2, 0);
            if l3.peek != 46 {
                (TokenV::Integer(val), l3)
            } else {
                let (digits, l4) = read_frac_s(l3, Seq::empty());
                (TokenV::Real(real_text(val, digits)), l4)
            }
        } else if is_alpha(l2.peek) {
            let (lex, l3) = read_ident_s(l2, Seq::empty());
            (keyword_token(lex), l3)
        } else {
            (TokenV::Tok(l2.peek), with_peek(l2, 32))
        }
    }
}

impl Lexer {
    /// The reading position never passes the end of the input.
    pub open spec fn wf(&self) -> bool {
        self@.pos <= self@.input.len()
    }

    /// A scanner over the given bytes, with the look-ahead primed as a
    /// space and the line count at one.
    pub fn new(source: Vec<u8>) -> (r: Lexer)
        ensures
            r@ == (LexV { input: source@, pos: 0, peek: 32, line: 1 }),
            r.wf(),
    {
        Lexer { line: 1, peek: 32, pos: 0, input: source }
    }

    /// Reads one byte into the look-ahead; exhausted input reads as zero.
    fn read(&mut self)
        requires
            old(self).wf(),
        ensures
            final(self)@ == read_s(old(self)@),
            final(self).wf(),
    {
        if self.pos < self.input.len() {
            self.peek = self.input[self.pos];
            self.pos = self.pos + 1;
        } else {
            self.peek = 0;
        }
    }

    /// Probes for the second byte of a compound operator.
    fn read_ch(&mut self, c: u8) -> (r: bool)
        requires
            old(self).wf(),
        ensures
            (r, final(self)@) == read_ch_s(old(self)@, c),
            final(self).wf(),
    {
        self.read();
        if self.peek != c {
            return false;
        }
        self.peek = 32;
        true
    }

    /// Scans the next token, exactly as `scan_s` states it.
    pub fn scan(&mut self) -> (t: Token)
        requires
            old(self).wf(),
        ensures
            t@ == scan_s(old(self)@).0,
            final(self)@ == scan_s(old(self)@).1,
            final(self).wf(),
    {
        let ghost l0 = self@;
        if self.peek != 32 {
            if self.peek == 0 {
                return Token::Eof;
            }
            let tok = Token::Tok(self.peek);
            self.peek = 32;
            return tok;
        }
        loop
            invariant_except_break
                self.wf(),
                self@.input == l0.input,
                skip_ws_s(l0) == skip_ws_s(self@),
            ensures
                self.wf(),
                self@ == skip_ws_s(l0),
            decreases self@.input.len() - self@.pos,
        {
            let ghost before = self@;
            self.read();
            if self.peek == 32 || self.peek == 9 || self.peek == 13 {
                proof {
                    assert(self@.pos > before.pos);
                }
                continue;
            }
            if self.peek == 10 {
                self.line = self.line.wrapping_add(1);
                proof {
                    assert(self@.pos > before.pos);
                    assert(self@ == (LexV {
                        input: read_s(before).input,
                        pos: read_s(before).pos,
                        peek: read_s(before).peek,
                        line: vstd::wrapping::u32_specs::wrapping_add(read_s(before).line, 1),
                    }));
                }
                continue;
            }
            proof {
                assert(skip_ws_s(before) == self@);
            }
            break;
        }
        proof {
            assert(self@ == skip_ws_s(l0));
        }
        let ghost l2 = self@;
        if self.peek == 0 {
            return Token::Eof;
        }
        if self.peek == 38 {
            return if self.read_ch(38) {
                Token::And
            } else {
                Token::Tok(38)
            };
        }
        if self.peek == 124 {
            return if self.read_ch(124) {
                Token::Or
            } else {
                Token::Tok(124)
            };
        }
        if self.peek == 61 {
            return if self.read_ch(61) {
                Token::Equality
            } else {
                Token::Tok(61)
            };
        }
        if self.peek == 33 {
            return if self.read_ch(61) {
                Token::Ne
            } else {
                Token::Tok(33)
            };
        }
        if self.peek == 60 {
            return if self.read_ch(61) {
                Token::Le
            } else {
                Token::Tok(60)
            };
        }
        if self.peek == 62 {
            return if self.read_ch(61) {
                Token::Ge
            } else {
                Token::Tok(62)
            };
        }
        if self.peek >= 48 && self.peek <= 57 {
            let mut val: i64 = 0;
            loop
                invariant_except_break
                    self.wf(),
                    self@.input == l2.input,
                    is_digit(self@.peek),
                    read_int_s(l2, 0) == read_int_s(self@, val),
                ensures
                    self.wf(),
                    (val, self@) == read_int_s(l2, 0),
                decreases self@.input.len() - self@.pos,
            {
                let ghost before = self@;
                let ghost vbefore = val;
                val = val.wrapping_mul(10).wrapping_add((self.peek - 48) as i64);
                self.read();
                if !(self.peek >= 48 && self.peek <= 57) {
                    proof {
                        assert(read_int_s(before, vbefore) == (val, self@));
                    }
                    break;
                }
                proof {
                    assert(self@.pos > before.pos);
                    assert(read_int_s(before, vbefore) == read_int_s(self@, val));
                }
            }
            let ghost (vs, l3) = read_int_s(l2, 0);
            proof {
                assert(vs == val && l3 == self@);
            }
            if self.peek != 46 {
                return Token::Integer(val);
            }
            let mut digits: Vec<u8> = Vec::new();
            loop
                invariant_except_break
                    self.wf(),
                    self@.input == l3.input,
                    read_frac_s(l3, Seq::empty()) == read_frac_s(self@, digits@),
                ensures
                    self.wf(),
                    read_frac_s(l3, Seq::empty()) == (digits@, self@),
                decreases self@.input.len() - self@.pos,
            {
                let ghost before = self@;
                let ghost dbefore = digits@;
                self.read();
                if !(self.peek >= 48 && self.peek <= 57) {
                    proof {
                        assert(read_frac_s(before, dbefore) == (dbefore, self@));
                    }
                    break;
                }
                digits.push(self.peek);
                proof {
                    assert(self@.pos > before.pos);
                    assert(digits@ =~= dbefore + seq![self@.peek]);
                    assert(read_frac_s(before, dbefore) == read_frac_s(self@, digits@));
                }
            }
            let ghost (ds, l4) = read_frac_s(l3, Seq::empty());
            proof {
                assert(ds == digits@ && l4 == self@);
            }
            while digits.len() > 0 && digits[digits.len() - 1] == 48
                invariant
                    trim_zeros(ds) == trim_zeros(digits@),
                decreases digits.len(),
            {
                let ghost dbefore = digits@;
                digits.pop();
                proof {
                    assert(digits@ == dbefore.drop_last());
                }
            }
            proof {
                assert(trim_zeros(digits@) =~= digits@);
            }
            let mut text = String::new();
            push_i64(&mut text, val);
            if digits.len() > 0 {
                push_char(&mut text, '.');
                let mut i: usize = 0;
                while i < digits.len()
                    invariant
                        i <= digits@.len(),
                        text@ == int_text(val as int) + seq!['.'] + bytes_chars(
                            digits@.take(i as int),
                        ),
                    decreases digits@.len() - i,
                {
                    push_char(&mut text, digits[i] as char);
                    i = i + 1;
                    proof {
                        lemma_bytes_chars_take(digits@, i as int);
                        assert(text@ =~= int_text(val as int) + seq!['.'] + bytes_chars(
                            digits@.take(i as int),
                        ));
                    }
                }
                proof {
                    assert(digits@.take(digits@.len() as int) =~= digits@);
                    assert(text@ =~= real_text(vs, ds));
                }
            } else {
                proof {
                    assert(text@ =~= real_text(vs, ds));
                }
            }
            return Token::Real(text);
        }
        if (self.peek >= 97 && self.peek <= 122) || (self.peek >= 65 && self.peek <= 90) {
            let mut ident = String::new();
            loop
                invariant_except_break
                    self.wf(),
                    self@.input == l2.input,
                    is_alpha(self@.peek) || is_digit(self@.peek),
                    read_ident_s(l2, Seq::empty()) == read_ident_s(self@, ident@),
                ensures
                    self.wf(),
                    read_ident_s(l2, Seq::empty()) == (ident@, self@),
                decreases self@.input.len() - self@.pos,
            {
                let ghost before = self@;
                let ghost ibefore = ident@;
                push_char(&mut ident, self.peek as char);
                self.read();
                let a = self.peek >= 97 && self.peek <= 122;
                let b = self.peek >= 65 && self.peek <= 90;
                let d = self.peek >= 48 && self.peek <= 57;
                if !(a || b || d) {
                    proof {
                        assert(read_ident_s(before, ibefore) == (ident@, self@));
                    }
                    break;
                }
                proof {
                    assert(self@.pos > before.pos);
                    assert(read_ident_s(before, ibefore) == read_ident_s(self@, ident@));
                }
            }
            let ghost (lex, l3) = read_ident_s(l2, Seq::empty());
            proof {
                assert(lex == ident@ && l3 == self@);
            }
            return Token::from_str(ident.as_str());
        }
        let tok = Token::Tok(self.peek);
        self.peek = 32;
        tok
    }
}

/// Taking one more byte extends the character form by that byte's
/// character.
pub proof fn lemma_bytes_chars_take(s: Seq<u8>, i: int)
    requires
        0 < i <= s.len(),
    ensures
        bytes_chars(s.take(i)) == bytes_chars(s.take(i - 1)) + seq![s[i - 1] as char],
    decreases i,
{
    if i == 1 {
        assert(s.take(1).drop_first() =~= Seq::empty());
        assert(s.take(0) =~= Seq::<u8>::empty());
        assert(bytes_chars(s.take(1)) =~= seq![s[0] as char]);
    } else {
        lemma_bytes_chars_take(s.drop_first(), i - 1);
        assert(s.take(i).drop_first() =~= s.drop_first().take(i - 1));
        assert(s.take(i - 1).drop_first() =~= s.drop_first().take(i - 2));
        assert(bytes_chars(s.take(i)) == seq![s[0] as char] + bytes_chars(s.drop_first().take(i - 1)));
        assert(bytes_chars(s.take(i - 1)) == seq![s[0] as char] + bytes_chars(
            s.drop_first().take(i - 2),
        ));
        assert(bytes_chars(s.take(i)) =~= bytes_chars(s.take(i - 1)) + seq![s[i - 1] as char]);
    }
}

} // verus!
