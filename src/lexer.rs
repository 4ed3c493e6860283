//! Splitting a scene description into tokens.
//!
//! Whitespace separates tokens. `#` and `//` start a comment that runs to the
//! end of the line. `/*` starts one that ends at a `*/`; a `*` that is not
//! followed by `/` is skipped together with the character after it, so `**/`
//! does not end a comment. A comment still open at the end of the text is an
//! invalid token.

use vstd::prelude::*;
use crate::location::{Location, position_after};
use crate::chars::{LL1, Acceptor};
use crate::number::{is_digit, float_literal, is_float_literal};
use crate::token::{Token, TokenView};
use crate::error::{SyntaxError, SyntaxErrorType};

verus! {

/// Whether `c` is whitespace, as Rust's `char::is_whitespace` tells it.
pub uninterp spec fn white_space(c: char) -> bool;

/// Relies on `char::is_whitespace`: whether `c` has Unicode's White_Space
/// property.
#[verifier::external_body]
fn is_white_space(c: char) -> (r: bool)
    ensures
        r == white_space(c),
{
    c.is_whitespace()
}

pub open spec fn ident_start(c: char) -> bool {
    ('A' <= c && c <= 'Z') || ('a' <= c && c <= 'z') || c == '_'
}

pub open spec fn ident_char(c: char) -> bool {
    ident_start(c) || is_digit(c)
}

pub open spec fn number_start(c: char) -> bool {
    is_digit(c) || c == '.' || c == '-' || c == '+'
}

pub open spec fn number_char(c: char) -> bool {
    ident_char(c) || c == '.' || c == '-' || c == '+'
}

/// The runs of characters that the lexer reads in one go.
pub enum CharClass {
    Space,
    NotNewline,
    NotStar,
    Word,
    NumberPart,
}

pub open spec fn in_class(c: char, k: CharClass) -> bool {
    match k {
        CharClass::Space => white_space(c),
        CharClass::NotNewline => c != '\n',
        CharClass::NotStar => c != '*',
        CharClass::Word => ident_char(c),
        CharClass::NumberPart => number_char(c),
    }
}

/// End of the longest run of characters of class `k` that starts at `i`.
pub open spec fn run_end(s: Seq<char>, i: int, k: CharClass) -> int
    decreases s.len() - i,
{
    if 0 <= i < s.len() && in_class(s[i], k) {
        run_end(s, i + 1, k)
    } else {
        i
    }
}

/// The token of a one-character punctuation mark.
pub open spec fn punctuation(c: char) -> Option<TokenView> {
    if c == '{' {
        Some(TokenView::LBrace)
    } else if c == '}' {
        Some(TokenView::RBrace)
    } else if c == '[' {
        Some(TokenView::LBracket)
    } else if c == ']' {
        Some(TokenView::RBracket)
    } else if c == '(' {
        Some(TokenView::LParen)
    } else if c == ')' {
        Some(TokenView::RParen)
    } else if c == ':' {
        Some(TokenView::Colon)
    } else if c == ',' {
        Some(TokenView::Comma)
    } else {
        None
    }
}

/// How many characters are pulled once the cursor is at `k` and the
/// character there has been looked at.
pub open spec fn looked_at(s: Seq<char>, k: int) -> int {
    if k < s.len() {
        k + 1
    } else {
        s.len() as int
    }
}

/// Where a block comment whose body starts at `i` ends: a `*` is searched,
/// and the character after it must be `/`; otherwise the search goes on after
/// that character. `None` when the text ends first.
pub open spec fn block_end(s: Seq<char>, i: int) -> Option<int>
    decreases s.len() - i,
{
    let j = run_end(s, i, CharClass::NotStar);
    if j + 1 >= s.len() || j < i {
        None
    } else if s[j + 1] == '/' {
        Some(j + 2)
    } else {
        block_end(s, j + 2)
    }
}

/// The outcome of reading one token from a cursor position. Each carries how
/// many characters were pulled from the text when it was decided, which fixes
/// the location reported with it.
pub enum Scan {
    /// A token, the cursor after it, and the characters pulled.
    Tok(TokenView, int, int),
    /// The end of the text.
    End(int),
    /// A character that starts no token (or an unfinished comment).
    Invalid(int),
    /// A run of number characters that is no number literal.
    BadNumber(Seq<char>, int),
}

/// Reading one token from position `i` of `s`.
pub open spec fn scan(s: Seq<char>, i: int) -> Scan
    decreases s.len() - i,
{
    let j = run_end(s, i, CharClass::Space);
    if i < 0 || j < i || j >= s.len() {
        Scan::End(s.len() as int)
    } else {
        let c = s[j];
        if punctuation(c).is_some() {
            Scan::Tok(punctuation(c).unwrap(), j + 1, j + 1)
        } else if c == '#' {
            let k = run_end(s, j, CharClass::NotNewline);
            if k > i && k <= s.len() {
                scan(s, k)
            } else {
                Scan::End(s.len() as int)
            }
        } else if c == '/' {
            if j + 1 >= s.len() {
                Scan::Invalid(s.len() as int)
            } else if s[j + 1] == '/' {
                let k = run_end(s, j + 2, CharClass::NotNewline);
                if k > i && k <= s.len() {
                    scan(s, k)
                } else {
                    Scan::End(s.len() as int)
                }
            } else if s[j + 1] == '*' {
                match block_end(s, j + 2) {
                    Some(k) => if k > i && k <= s.len() {
                        scan(s, k)
                    } else {
                        Scan::End(s.len() as int)
                    },
                    None => Scan::Invalid(s.len() as int),
                }
            } else {
                Scan::Invalid(j + 2)
            }
        } else if ident_start(c) {
            let k = run_end(s, j, CharClass::Word);
            Scan::Tok(TokenView::Identifier(s.subrange(j, k)), k, looked_at(s, k))
        } else if number_start(c) {
            let k = run_end(s, j, CharClass::NumberPart);
            if float_literal(s.subrange(j, k)) {
                Scan::Tok(TokenView::Number(s.subrange(j, k)), k, looked_at(s, k))
            } else {
                Scan::BadNumber(s.subrange(j, k), looked_at(s, k))
            }
        } else {
            Scan::Invalid(j + 1)
        }
    }
}

/// Why a text could not be split into tokens.
pub enum LexError {
    InvalidToken,
    InvalidNumber(Seq<char>),
}

/// The tokens of a text from some position on, each with the location where
/// it was read; the location where reading stopped, and why if it failed.
pub struct LexView {
    pub tokens: Seq<TokenView>,
    pub locs: Seq<(int, int)>,
    pub end: (int, int),
    pub error: Option<LexError>,
}

/// The location after pulling `p` characters of `s`.
pub open spec fn loc_at(s: Seq<char>, p: int) -> (int, int) {
    position_after(s.take(p))
}

/// Splitting `s` into tokens from position `i` on.
pub open spec fn lex_from(s: Seq<char>, i: int) -> LexView
    decreases s.len() - i,
{
    match scan(s, i) {
        Scan::Tok(t, e, p) => if e > i && e <= s.len() {
            let rest = lex_from(s, e);
            LexView {
                tokens: seq![t] + rest.tokens,
                locs: seq![loc_at(s, p)] + rest.locs,
                end: rest.end,
                error: rest.error,
            }
        } else {
            LexView { tokens: seq![], locs: seq![], end: loc_at(s, p), error: None }
        },
        Scan::End(p) => LexView { tokens: seq![], locs: seq![], end: loc_at(s, p), error: None },
        Scan::Invalid(p) => LexView {
            tokens: seq![],
            locs: seq![],
            end: loc_at(s, p),
            error: Some(LexError::InvalidToken),
        },
        Scan::BadNumber(n, p) => LexView {
            tokens: seq![],
            locs: seq![],
            end: loc_at(s, p),
            error: Some(LexError::InvalidNumber(n)),
        },
    }
}

/// Splitting a whole text into tokens.
pub open spec fn lex(s: Seq<char>) -> LexView {
    lex_from(s, 0)
}

proof fn lemma_run_end_bounds(s: Seq<char>, i: int, k: CharClass)
    ensures
        i <= run_end(s, i, k),
        0 <= i <= s.len() ==> run_end(s, i, k) <= s.len(),
        forall|x: int| i <= x < run_end(s, i, k) ==> in_class(#[trigger] s[x], k),
        0 <= i ==> run_end(s, i, k) < s.len() ==> !in_class(s[run_end(s, i, k)], k),
    decreases s.len() - i,
{
    if 0 <= i < s.len() && in_class(s[i], k) {
        lemma_run_end_bounds(s, i + 1, k);
    }
}

proof fn lemma_run_end_is(s: Seq<char>, i: int, e: int, k: CharClass)
    requires
        0 <= i <= e <= s.len(),
        forall|x: int| i <= x < e ==> in_class(#[trigger] s[x], k),
        e < s.len() ==> !in_class(s[e], k),
    ensures
        run_end(s, i, k) == e,
    decreases e - i,
{
    if i < e {
        lemma_run_end_is(s, i + 1, e, k);
    }
}

/// A step that reads a token moves forward.
proof fn lemma_scan_progress(s: Seq<char>, i: int)
    requires
        0 <= i,
    ensures
        scan(s, i) matches Scan::Tok(_, e, _) ==> i < e <= s.len(),
    decreases s.len() - i,
{
    let j = run_end(s, i, CharClass::Space);
    lemma_run_end_bounds(s, i, CharClass::Space);
    if i < 0 || j < i || j >= s.len() {
    } else {
        let c = s[j];
        if punctuation(c).is_some() {
        } else if c == '#' {
            let k = run_end(s, j, CharClass::NotNewline);
            if k > i && k <= s.len() {
                lemma_scan_progress(s, k);
            }
        } else if c == '/' {
            if j + 1 >= s.len() {
            } else if s[j + 1] == '/' {
                let k = run_end(s, j + 2, CharClass::NotNewline);
                if k > i && k <= s.len() {
                    lemma_scan_progress(s, k);
                }
            } else if s[j + 1] == '*' {
                match block_end(s, j + 2) {
                    Some(k) => if k > i && k <= s.len() {
                        lemma_scan_progress(s, k);
                    },
                    None => {},
                }
            }
        } else if ident_start(c) {
            lemma_run_end_bounds(s, j, CharClass::Word);
        } else if number_start(c) {
            lemma_run_end_bounds(s, j, CharClass::NumberPart);
        }
    }
}

/// What reading one token gave.
enum Scanned {
    Tok(Token),
    End,
    Invalid,
    BadNumber(Vec<char>),
}

/// Skips the body of a block comment; false when the text ends first.
fn skip_block_comment(acc: &mut Acceptor) -> (r: bool)
    requires
        old(acc).iter.wf(),
    ensures
        final(acc).iter.wf(),
        final(acc).iter.text() == old(acc).iter.text(),
        match block_end(old(acc).iter.text(), old(acc).iter.cursor()) {
            Some(k) => r && final(acc).iter.cursor() == k,
            None => !r && final(acc).iter.pulled() == final(acc).iter.text().len(),
        },
{
    let ghost s = acc.iter.text();
    let ghost i0 = acc.iter.cursor();
    proof {
        acc.iter.lemma_cursor();
    }
    loop
        invariant
            acc.iter.wf(),
            acc.iter.text() == s,
            s == old(acc).iter.text(),
            i0 == old(acc).iter.cursor(),
            0 <= acc.iter.cursor() <= s.len(),
            block_end(s, i0) == block_end(s, acc.iter.cursor()),
        decreases s.len() - acc.iter.cursor(),
    {
        let ghost i = acc.iter.cursor();
        let not_star = |c: char| -> (r: bool)
            ensures
                r == in_class(c, CharClass::NotStar),
        { c != '*' };
        acc.skip_while(not_star);
        proof {
            let e = acc.iter.cursor();
            assert forall|x: int| i <= x < e implies in_class(#[trigger] s[x], CharClass::NotStar) by {
                assert(not_star.ensures((s[x],), true));
            }
            if e < s.len() {
                assert(not_star.ensures((s[e],), false));
            }
            lemma_run_end_is(s, i, e, CharClass::NotStar);
        }
        acc.skip();
        let t = acc.take();
        match t {
            Some(c) => {
                if c == '/' {
                    return true;
                }
            },
            None => {
                return false;
            },
        }
    }
}

/// Reads the next token.
fn scan_token(acc: &mut Acceptor) -> (r: Scanned)
    requires
        old(acc).iter.wf(),
    ensures
        final(acc).iter.wf(),
        final(acc).iter.text() == old(acc).iter.text(),
        match scan(old(acc).iter.text(), old(acc).iter.cursor()) {
            Scan::Tok(t, e, p) => {
                &&& r matches Scanned::Tok(tok) && tok@ == t
                &&& final(acc).iter.cursor() == e
                &&& final(acc).iter.pulled() == p
            },
            Scan::End(p) => r matches Scanned::End && final(acc).iter.pulled() == p,
            Scan::Invalid(p) => r matches Scanned::Invalid && final(acc).iter.pulled() == p,
            Scan::BadNumber(n, p) => r matches Scanned::BadNumber(v) && v@ == n && final(acc).iter.pulled() == p,
        },
{
    let ghost s = acc.iter.text();
    let ghost i0 = acc.iter.cursor();
    proof {
        acc.iter.lemma_cursor();
    }
    loop
        invariant
            acc.iter.wf(),
            acc.iter.text() == s,
            s == old(acc).iter.text(),
            i0 == old(acc).iter.cursor(),
            0 <= acc.iter.cursor() <= s.len(),
            scan(s, i0) == scan(s, acc.iter.cursor()),
        decreases s.len() - acc.iter.cursor(),
    {
        let ghost i = acc.iter.cursor();
        let space = |c: char| -> (r: bool)
            ensures
                r == in_class(c, CharClass::Space),
        { is_white_space(c) };
        acc.skip_while(space);
        let ghost j = acc.iter.cursor();
        proof {
            assert forall|x: int| i <= x < j implies in_class(#[trigger] s[x], CharClass::Space) by {
                assert(space.ensures((s[x],), true));
            }
            if j < s.len() {
                assert(space.ensures((s[j],), false));
            }
            lemma_run_end_is(s, i, j, CharClass::Space);
        }
        let c = match acc.peek() {
            Some(c) => c,
            None => {
                return Scanned::End;
            },
        };
        if c == '{' || c == '}' || c == '[' || c == ']' || c == '(' || c == ')' || c == ':' || c == ',' {
            acc.skip();
            let tok = if c == '{' {
                Token::LBrace
            } else if c == '}' {
                Token::RBrace
            } else if c == '[' {
                Token::LBracket
            } else if c == ']' {
                Token::RBracket
            } else if c == '(' {
                Token::LParen
            } else if c == ')' {
                Token::RParen
            } else if c == ':' {
                Token::Colon
            } else {
                Token::Comma
            };
            return Scanned::Tok(tok);
        } else if c == '#' {
            let not_newline = |c: char| -> (r: bool)
                ensures
                    r == in_class(c, CharClass::NotNewline),
            { c != '\n' };
            acc.skip_while(not_newline);
            proof {
                let e = acc.iter.cursor();
                assert forall|x: int| j <= x < e implies in_class(#[trigger] s[x], CharClass::NotNewline) by {
                    assert(not_newline.ensures((s[x],), true));
                }
                if e < s.len() {
                    assert(not_newline.ensures((s[e],), false));
                }
                lemma_run_end_is(s, j, e, CharClass::NotNewline);
            }
        } else if c == '/' {
            acc.skip();
            let n = acc.take();
            match n {
                Some(d) => {
                    if d == '/' {
                        let not_newline = |c: char| -> (r: bool)
                            ensures
                                r == in_class(c, CharClass::NotNewline),
                        { c != '\n' };
                        acc.skip_while(not_newline);
                        proof {
                            let e = acc.iter.cursor();
                            assert forall|x: int| j + 2 <= x < e implies in_class(
                                #[trigger] s[x],
                                CharClass::NotNewline,
                            ) by {
                                assert(not_newline.ensures((s[x],), true));
                            }
                            if e < s.len() {
                                assert(not_newline.ensures((s[e],), false));
                            }
                            lemma_run_end_is(s, j + 2, e, CharClass::NotNewline);
                        }
                    } else if d == '*' {
                        if !skip_block_comment(acc) {
                            return Scanned::Invalid;
                        }
                        proof {
                            lemma_block_end_bounds(s, j + 2);
                        }
                    } else {
                        return Scanned::Invalid;
                    }
                },
                None => {
                    return Scanned::Invalid;
                },
            }
        } else if ('A' <= c && c <= 'Z') || ('a' <= c && c <= 'z') || c == '_' {
            let word = |c: char| -> (r: bool)
                ensures
                    r == in_class(c, CharClass::Word),
            { ('A' <= c && c <= 'Z') || ('a' <= c && c <= 'z') || c == '_' || ('0' <= c && c <= '9') };
            let w = acc.take_while(word);
            proof {
                let e = acc.iter.cursor();
                assert forall|x: int| j <= x < e implies in_class(#[trigger] s[x], CharClass::Word) by {
                    assert(word.ensures((s[x],), true));
                }
                if e < s.len() {
                    assert(word.ensures((s[e],), false));
                }
                lemma_run_end_is(s, j, e, CharClass::Word);
            }
            return Scanned::Tok(Token::Identifier(w));
        } else if ('0' <= c && c <= '9') || c == '.' || c == '-' || c == '+' {
            let part = |c: char| -> (r: bool)
                ensures
                    r == in_class(c, CharClass::NumberPart),
            {
                ('A' <= c && c <= 'Z') || ('a' <= c && c <= 'z') || c == '_' || ('0' <= c && c <= '9')
                    || c == '.' || c == '-' || c == '+'
            };
            let n = acc.take_while(part);
            proof {
                let e = acc.iter.cursor();
                assert forall|x: int| j <= x < e implies in_class(#[trigger] s[x], CharClass::NumberPart) by {
                    assert(part.ensures((s[x],), true));
                }
                if e < s.len() {
                    assert(part.ensures((s[e],), false));
                }
                lemma_run_end_is(s, j, e, CharClass::NumberPart);
            }
            if is_float_literal(&n) {
                return Scanned::Tok(Token::Number(n));
            } else {
                return Scanned::BadNumber(n);
            }
        } else {
            return Scanned::Invalid;
        }
    }
}

proof fn lemma_block_end_bounds(s: Seq<char>, i: int)
    requires
        0 <= i,
    ensures
        block_end(s, i) matches Some(k) ==> i < k <= s.len(),
    decreases s.len() - i,
{
    let j = run_end(s, i, CharClass::NotStar);
    lemma_run_end_bounds(s, i, CharClass::NotStar);
    if j + 1 >= s.len() || j < i {
    } else if s[j + 1] == '/' {
    } else {
        lemma_block_end_bounds(s, j + 2);
    }
}

/// The tokens of a text, each with the location where it was read (just past
/// the token, and past the character looked at to end it); the location where
/// reading stopped; and the error that stopped it, if any.
pub struct Lexed {
    pub tokens: Vec<Token>,
    pub locations: Vec<Location>,
    pub end: Location,
    pub error: Option<SyntaxError>,
}

impl Lexed {
    /// This value is `v`.
    pub open spec fn is(&self, v: LexView) -> bool {
        &&& self.tokens@.len() == v.tokens.len()
        &&& forall|k: int| 0 <= k < v.tokens.len() ==> (#[trigger] self.tokens@[k])@ == v.tokens[k]
        &&& self.locations@.len() == v.locs.len()
        &&& forall|k: int| 0 <= k < v.locs.len() ==> (#[trigger] self.locations@[k]).pos() == v.locs[k]
        &&& self.end.pos() == v.end
        &&& match v.error {
            None => self.error.is_none(),
            Some(LexError::InvalidToken) => self.error matches Some(e) && (e.location == self.end
                && e.etype is InvalidToken),
            Some(LexError::InvalidNumber(n)) => self.error matches Some(e) && (e.location == self.end
                && (e.etype matches SyntaxErrorType::InvalidNumber { num } && num@ == n)),
        }
    }
}

proof fn lemma_lexed_done(s: Seq<char>, i: int, tokens: Seq<Token>, locations: Seq<Location>, end: Location)
    requires
        lex_from(s, i).tokens.len() == 0,
        lex_from(s, i).locs.len() == 0,
        lex(s).tokens == tokens.map_values(|t: Token| t@) + lex_from(s, i).tokens,
        lex(s).locs == locations.map_values(|l: Location| l.pos()) + lex_from(s, i).locs,
    ensures
        lex(s).tokens.len() == tokens.len(),
        forall|k: int| 0 <= k < tokens.len() ==> (#[trigger] tokens[k])@ == lex(s).tokens[k],
        lex(s).locs.len() == locations.len(),
        forall|k: int| 0 <= k < locations.len() ==> (#[trigger] locations[k]).pos() == lex(s).locs[k],
{
    assert(lex(s).tokens =~= tokens.map_values(|t: Token| t@));
    assert(lex(s).locs =~= locations.map_values(|l: Location| l.pos()));
}

/// Splits a text into tokens; stops at the first character that starts no
/// token.
pub fn tokenize(text: Vec<char>) -> (r: Lexed)
    requires
        text@.len() < usize::MAX,
    ensures
        r.is(lex(text@)),
{
    let ghost s = text@;
    let mut acc = Acceptor { iter: LL1::new(text) };
    let mut tokens: Vec<Token> = Vec::new();
    let mut locations: Vec<Location> = Vec::new();
    loop
        invariant
            acc.iter.wf(),
            acc.iter.text() == s,
            s == text@,
            0 <= acc.iter.cursor() <= s.len(),
            lex(s).tokens == tokens@.map_values(|t: Token| t@) + lex_from(s, acc.iter.cursor()).tokens,
            lex(s).locs == locations@.map_values(|l: Location| l.pos()) + lex_from(s, acc.iter.cursor()).locs,
            lex(s).end == lex_from(s, acc.iter.cursor()).end,
            lex(s).error == lex_from(s, acc.iter.cursor()).error,
        decreases s.len() - acc.iter.cursor(),
    {
        let ghost i = acc.iter.cursor();
        proof {
            lemma_scan_progress(s, i);
        }
        let scanned = scan_token(&mut acc);
        proof {
            acc.iter.lemma_cursor();
        }
        let location = acc.iter.location();
        match scanned {
            Scanned::Tok(t) => {
                let ghost tv = tokens@.map_values(|t: Token| t@);
                let ghost lv = locations@.map_values(|l: Location| l.pos());
                tokens.push(t);
                locations.push(location);
                proof {
                    assert(tokens@.map_values(|t: Token| t@) =~= tv.push(t@));
                    assert(locations@.map_values(|l: Location| l.pos()) =~= lv.push(location.pos()));
                    let rest = lex_from(s, acc.iter.cursor());
                    assert(tv.push(t@) + rest.tokens =~= tv + (seq![t@] + rest.tokens));
                    assert(lv.push(location.pos()) + rest.locs =~= lv + (seq![location.pos()] + rest.locs));
                }
            },
            Scanned::End => {
                proof {
                    lemma_lexed_done(s, i, tokens@, locations@, location);
                }
                let r = Lexed { tokens, locations, end: location, error: None };
                return r;
            },
            Scanned::Invalid => {
                proof {
                    lemma_lexed_done(s, i, tokens@, locations@, location);
                }
                let error = SyntaxError { etype: SyntaxErrorType::InvalidToken, location };
                return Lexed { tokens, locations, end: location, error: Some(error) };
            },
            Scanned::BadNumber(num) => {
                proof {
                    lemma_lexed_done(s, i, tokens@, locations@, location);
                }
                let error = SyntaxError { etype: SyntaxErrorType::InvalidNumber { num }, location };
                return Lexed { tokens, locations, end: location, error: Some(error) };
            },
        }
    }
}

/// A number token read in one step is a floating-point literal.
proof fn lemma_scan_number(s: Seq<char>, i: int)
    ensures
        scan(s, i) matches Scan::Tok(TokenView::Number(n), _, _) ==> float_literal(n),
    decreases s.len() - i,
{
    let j = run_end(s, i, CharClass::Space);
    if i < 0 || j < i || j >= s.len() {
    } else {
        let c = s[j];
        if punctuation(c).is_some() {
        } else if c == '#' {
            let k = run_end(s, j, CharClass::NotNewline);
            if k > i && k <= s.len() {
                lemma_scan_number(s, k);
            }
        } else if c == '/' {
            if j + 1 >= s.len() {
            } else if s[j + 1] == '/' {
                let k = run_end(s, j + 2, CharClass::NotNewline);
                if k > i && k <= s.len() {
                    lemma_scan_number(s, k);
                }
            } else if s[j + 1] == '*' {
                match block_end(s, j + 2) {
                    Some(k) => if k > i && k <= s.len() {
                        lemma_scan_number(s, k);
                    },
                    None => {},
                }
            }
        }
    }
}

/// Every number token that the lexer yields is a floating-point literal, and
/// each token has its location.
pub proof fn lemma_lex_numbers(s: Seq<char>, i: int)
    requires
        0 <= i,
    ensures
        lex_from(s, i).tokens.len() == lex_from(s, i).locs.len(),
        forall|k: int| 0 <= k < lex_from(s, i).tokens.len()
            ==> (#[trigger] lex_from(s, i).tokens[k] matches TokenView::Number(n) ==> float_literal(n)),
    decreases s.len() - i,
{
    lemma_scan_number(s, i);
    match scan(s, i) {
        Scan::Tok(t, e, p) => if e > i && e <= s.len() {
            lemma_lex_numbers(s, e);
            let v = lex_from(s, i);
            let rest = lex_from(s, e);
            assert forall|k: int| 0 <= k < v.tokens.len() implies (#[trigger] v.tokens[k] matches TokenView::Number(n)
                ==> float_literal(n)) by {
                if k > 0 {
                    assert(v.tokens[k] == rest.tokens[k - 1]);
                } else {
                    assert(v.tokens[0] == t);
                }
            }
        },
        _ => {},
    }
}

} // verus!
