//! A token sequence read one token at a time, with one token of lookahead.

use vstd::prelude::*;
use crate::location::Location;
use crate::token::{Token, TokenView, TokenKind};
use crate::error::{Expected, SyntaxError, SyntaxErrorType};
use crate::number::float_literal;
use crate::grammar::{answers, p_expect, p_word, found_view};

verus! {

/// A copy of `v`.
pub fn copy_chars(v: &[char]) -> (r: Vec<char>)
    ensures
        r@ == v@,
{
    let mut out: Vec<char> = Vec::new();
    let mut k: usize = 0;
    while k < v.len()
        invariant
            0 <= k <= v@.len(),
            out@ == v@.take(k as int),
        decreases v@.len() - k,
    {
        out.push(v[k]);
        k = k + 1;
        assert(out@ =~= v@.take(k as int));
    }
    assert(out@ =~= v@);
    out
}

/// Whether `v` spells `w`.
pub fn is_word(v: &Vec<char>, w: &[char]) -> (r: bool)
    ensures
        r == (v@ == w@),
{
    if v.len() != w.len() {
        return false;
    }
    let mut k: usize = 0;
    while k < w.len()
        invariant
            v@.len() == w@.len(),
            0 <= k <= w@.len(),
            forall|i: int| 0 <= i < k ==> v@[i] == w@[i],
        decreases w@.len() - k,
    {
        if v[k] != w[k] {
            return false;
        }
        k = k + 1;
    }
    assert(v@ =~= w@);
    true
}

impl Token {
    /// A copy of this token.
    pub fn duplicate(&self) -> (r: Token)
        ensures
            r@ == self@,
    {
        match self {
            Token::Identifier(v) => Token::Identifier(copy_chars(v.as_slice())),
            Token::Number(v) => Token::Number(copy_chars(v.as_slice())),
            Token::LBrace => Token::LBrace,
            Token::RBrace => Token::RBrace,
            Token::LBracket => Token::LBracket,
            Token::RBracket => Token::RBracket,
            Token::LParen => Token::LParen,
            Token::RParen => Token::RParen,
            Token::Colon => Token::Colon,
            Token::Comma => Token::Comma,
        }
    }
}

/// Every number token in `t` is a floating-point literal.
pub open spec fn numbers_valid(t: Seq<TokenView>) -> bool {
    forall|k: int| 0 <= k < t.len() ==> (#[trigger] t[k] matches TokenView::Number(n) ==> float_literal(n))
}

/// Tokens read one at a time. `location` is where the last token pulled was
/// read, or the end location once a pull found no token left.
pub struct Tokens {
    tokens: Vec<Token>,
    locations: Vec<Location>,
    end: Location,
    pos: usize,
    pulled: usize,
    reached_end: bool,
    location: Location,
}

impl Tokens {
    pub closed spec fn toks(&self) -> Seq<TokenView> {
        self.tokens@.map_values(|t: Token| t@)
    }

    pub closed spec fn locs(&self) -> Seq<Location> {
        self.locations@
    }

    pub closed spec fn end_loc(&self) -> Location {
        self.end
    }

    /// Index of the next token.
    pub closed spec fn pos(&self) -> int {
        self.pos as int
    }

    /// Whether a pull has found no token left.
    pub closed spec fn reached_end(&self) -> bool {
        self.reached_end
    }

    /// The current location.
    pub closed spec fn loc(&self) -> Location {
        self.location
    }

    /// The next token has been pulled already.
    pub closed spec fn has_peeked(&self) -> bool {
        self.pulled == self.pos + 1
    }

    pub closed spec fn wf(&self) -> bool {
        &&& self.tokens@.len() == self.locations@.len()
        &&& self.tokens@.len() <= usize::MAX
        &&& self.pos <= self.pulled <= self.pos + 1
        &&& self.pulled <= self.tokens@.len()
        &&& self.reached_end ==> self.pos == self.tokens@.len() && self.location == self.end
        &&& !self.reached_end ==> self.location == if self.pulled == 0 {
            Location { row: 1, col: 0 }
        } else {
            self.locations@[self.pulled - 1]
        }
        &&& numbers_valid(self.toks())
    }

    /// `self` reads the same tokens as `other`.
    pub open spec fn same_input(&self, other: &Tokens) -> bool {
        &&& self.toks() == other.toks()
        &&& self.locs() == other.locs()
        &&& self.end_loc() == other.end_loc()
    }

    /// The next token, if any.
    pub open spec fn current(&self) -> Option<TokenView> {
        if 0 <= self.pos() < self.toks().len() {
            Some(self.toks()[self.pos()])
        } else {
            None
        }
    }

    /// The location once the next token, or the end, has been looked at.
    pub open spec fn looked_loc(&self) -> Location {
        if 0 <= self.pos() < self.toks().len() {
            self.locs()[self.pos()]
        } else {
            self.end_loc()
        }
    }

    /// The state after looking at the next token.
    pub open spec fn looked(&self, old: &Tokens) -> bool {
        &&& self.wf()
        &&& self.same_input(old)
        &&& self.pos() == old.pos()
        &&& self.loc() == old.looked_loc()
        &&& self.reached_end() == (old.reached_end() || old.pos() == old.toks().len())
    }

    /// The state after taking the next token.
    pub open spec fn took(&self, old: &Tokens) -> bool {
        &&& self.wf()
        &&& self.same_input(old)
        &&& self.pos() == old.pos() + 1
        &&& self.loc() == old.looked_loc()
        &&& self.reached_end() == old.reached_end()
    }

    pub proof fn lemma_wf(&self)
        requires
            self.wf(),
        ensures
            0 <= self.pos() <= self.toks().len(),
            self.toks().len() == self.locs().len(),
            numbers_valid(self.toks()),
            self.reached_end() ==> self.pos() == self.toks().len(),
    {
    }

    /// Tokens read from the start, with their locations, and the location
    /// where reading them stopped.
    pub fn new(tokens: Vec<Token>, locations: Vec<Location>, end: Location) -> (r: Tokens)
        requires
            tokens@.len() == locations@.len(),
            numbers_valid(tokens@.map_values(|t: Token| t@)),
        ensures
            r.wf(),
            r.toks() == tokens@.map_values(|t: Token| t@),
            r.locs() == locations@,
            r.end_loc() == end,
            r.pos() == 0,
            !r.reached_end(),
            r.loc() == (Location { row: 1, col: 0 }),
    {
        // reading the length tells that it fits in a usize
        let _n = tokens.len();
        Tokens { tokens, locations, end, pos: 0, pulled: 0, reached_end: false, location: Location::start() }
    }

    /// The current location.
    pub fn location(&self) -> (r: Location)
        ensures
            r == self.loc(),
    {
        self.location
    }

    /// Whether a pull has found no token left.
    pub fn has_reached_end(&self) -> (r: bool)
        ensures
            r == self.reached_end(),
    {
        self.reached_end
    }

    /// Looks at the next token; its kind, if there is one.
    pub fn peek(&mut self) -> (r: Option<TokenKind>)
        requires
            old(self).wf(),
        ensures
            final(self).looked(old(self)),
            old(self).current() is Some ==> final(self).has_peeked(),
            r == match old(self).current() {
                Some(t) => Some(t.kind()),
                None => None,
            },
    {
        proof {
            assert(self.tokens@.map_values(|t: Token| t@).len() == self.tokens@.len());
        }
        if self.pos < self.tokens.len() {
            if self.pulled == self.pos {
                self.pulled = self.pos + 1;
                self.location = self.locations[self.pos];
            }
            Some(self.tokens[self.pos].kind())
        } else {
            self.reached_end = true;
            self.location = self.end;
            None
        }
    }

    /// Looks at the next token; whether it is the identifier `w`.
    pub fn peek_word(&mut self, w: &[char]) -> (r: bool)
        requires
            old(self).wf(),
        ensures
            final(self).looked(old(self)),
            old(self).current() is Some ==> final(self).has_peeked(),
            r == (old(self).current() == Some(TokenView::Identifier(w@))),
    {
        self.peek();
        proof {
            assert(self.tokens@.map_values(|t: Token| t@).len() == self.tokens@.len());
            if self.pos < self.tokens@.len() {
                assert(self.toks()[self.pos()] == self.tokens@[self.pos as int]@);
            }
        }
        if self.pos < self.tokens.len() {
            match &self.tokens[self.pos] {
                Token::Identifier(v) => is_word(v, w),
                _ => false,
            }
        } else {
            false
        }
    }

    /// Takes the next token.
    pub fn take(&mut self) -> (r: Option<Token>)
        requires
            old(self).wf(),
        ensures
            match old(self).current() {
                Some(t) => r matches Some(tok) && tok@ == t && final(self).took(old(self)),
                None => r.is_none() && final(self).looked(old(self)),
            },
    {
        self.peek();
        proof {
            assert(self.tokens@.map_values(|t: Token| t@).len() == self.tokens@.len());
            if self.pos < self.tokens@.len() {
                assert(self.toks()[self.pos()] == self.tokens@[self.pos as int]@);
            }
        }
        if self.pos < self.tokens.len() {
            let t = self.tokens[self.pos].duplicate();
            self.pos = self.pos + 1;
            Some(t)
        } else {
            None
        }
    }

    /// The error for a token that is not the one expected.
    fn unexpected(&self, expected: Expected) -> (r: SyntaxError)
        requires
            self.wf(),
        ensures
            r.location == self.loc(),
            r.etype matches SyntaxErrorType::Expect { expected: x, found } && (x == expected && found_view(found)
                == self.current()),
    {
        proof {
            assert(self.tokens@.map_values(|t: Token| t@).len() == self.tokens@.len());
            if self.pos < self.tokens@.len() {
                assert(self.toks()[self.pos()] == self.tokens@[self.pos as int]@);
            }
        }
        let found = if self.pos < self.tokens.len() {
            Some(self.tokens[self.pos].duplicate())
        } else {
            None
        };
        SyntaxError { etype: SyntaxErrorType::Expect { expected, found }, location: self.location }
    }

    /// Takes the next token if it is of kind `kind`.
    pub fn accept(&mut self, kind: TokenKind) -> (r: bool)
        requires
            old(self).wf(),
        ensures
            r == (old(self).current() matches Some(t) && t.kind() == kind),
            r ==> final(self).took(old(self)),
            !r ==> final(self).looked(old(self)),
    {
        let k = self.peek();
        let is_kind = match k {
            Some(x) => x == kind,
            None => false,
        };
        proof {
            assert(self.tokens@.map_values(|t: Token| t@).len() == self.tokens@.len());
            if self.pos < self.tokens@.len() {
                assert(self.toks()[self.pos()] == self.tokens@[self.pos as int]@);
            }
        }
        if is_kind {
            self.pos = self.pos + 1;
            true
        } else {
            false
        }
    }

    /// Takes the next token, which must be of kind `kind`.
    pub fn expect(&mut self, kind: TokenKind) -> (r: Result<Token, SyntaxError>)
        requires
            old(self).wf(),
        ensures
            answers(final(self), old(self), r, p_expect(old(self).toks(), old(self).pos(), kind), |t: Token| t@),
    {
        let k = self.peek();
        let is_kind = match k {
            Some(x) => x == kind,
            None => false,
        };
        proof {
            assert(self.tokens@.map_values(|t: Token| t@).len() == self.tokens@.len());
            if self.pos < self.tokens@.len() {
                assert(self.toks()[self.pos()] == self.tokens@[self.pos as int]@);
            }
        }
        if is_kind {
            let t = self.tokens[self.pos].duplicate();
            self.pos = self.pos + 1;
            Ok(t)
        } else {
            Err(self.unexpected(Expected::Kind(kind)))
        }
    }

    /// Takes the next token, which must be the identifier `w`.
    pub fn expect_word(&mut self, w: &[char]) -> (r: Result<(), SyntaxError>)
        requires
            old(self).wf(),
        ensures
            answers(final(self), old(self), r, p_word(old(self).toks(), old(self).pos(), w@), |u: ()| u),
    {
        let is_w = self.peek_word(w);
        proof {
            assert(self.tokens@.map_values(|t: Token| t@).len() == self.tokens@.len());
        }
        if is_w {
            self.pos = self.pos + 1;
            Ok(())
        } else {
            Err(self.unexpected(Expected::Word(copy_chars(w))))
        }
    }
}

} // verus!
