//! Reading a scene from its textual description.

use vstd::prelude::*;
use vstd::std_specs::iter::IteratorSpec;
use crate::lexer::{tokenize, lex, lemma_lex_numbers, LexError, Lexed};
use crate::tokens::Tokens;
use crate::token::{Token, TokenView};
use crate::parser::parse_scene;
use crate::grammar::{p_scene, Parsed, ErrView, error_is, token_at, location_at};
use crate::error::{SyntaxError, SyntaxErrorType};
use crate::scene::{SceneDesc, SceneView};

verus! {

broadcast use vstd::string::group_string_axioms;

/// The characters of `text`.
fn chars_of(text: &String) -> (r: Vec<char>)
    ensures
        r@ == text@,
{
    let s = text.as_str();
    let mut it = s.chars();
    let mut out: Vec<char> = Vec::new();
    assert(out@ + it.remaining() =~= s@);
    loop
        invariant
            out@ + it.remaining() == s@,
            s@ == text@,
            it.obeys_prophetic_iter_laws(),
            it.decrease() is Some,
        ensures
            out@ == text@,
        decreases it.decrease()->0,
    {
        match it.next() {
            Some(c) => {
                out.push(c);
            },
            None => {
                assert(it.remaining().len() == 0);
                assert(out@ + it.remaining() =~= out@);
                break;
            },
        }
    }
    out
}

/// What reading a scene from a text gives.
pub enum ReadView {
    /// The scene.
    Scene(SceneView),
    /// A syntax error, the token it was found at (`None` at the end of the
    /// tokens), and where it was noticed.
    Syntax(ErrView, Option<TokenView>, (int, int)),
    /// A text that could not be split into the tokens the scene needed, and
    /// where splitting stopped.
    Lexical(LexError, (int, int)),
}

/// Reading a scene from `s`: the grammar reads the scene from the tokens of
/// `s`. Where it needed a token beyond the point where splitting `s` into
/// tokens failed, that failure is the outcome.
pub open spec fn read_scene(s: Seq<char>) -> ReadView {
    let lx = lex(s);
    match p_scene(lx.tokens, 0) {
        Parsed::Read(v, _) => ReadView::Scene(v),
        Parsed::Fail(e, k, _) => if k == lx.tokens.len() && lx.error is Some {
            ReadView::Lexical(lx.error->0, lx.end)
        } else {
            ReadView::Syntax(e, token_at(lx.tokens, k), if 0 <= k < lx.locs.len() {
                lx.locs[k]
            } else {
                lx.end
            })
        },
    }
}

/// `x` is the lexical error `e`.
pub open spec fn lex_error_is(x: SyntaxErrorType, e: LexError) -> bool {
    match e {
        LexError::InvalidToken => x is InvalidToken,
        LexError::InvalidNumber(n) => x matches SyntaxErrorType::InvalidNumber { num } && num@ == n,
    }
}

/// Deserialize the given text as a scene.
pub fn deserialize(text: &String) -> (r: Result<SceneDesc, SyntaxError>)
    requires
        text@.len() < usize::MAX,
    ensures
        match read_scene(text@) {
            ReadView::Scene(v) => r matches Ok(s) && (s@ == v && s.wf()),
            ReadView::Syntax(e, found, at) => r matches Err(x) && (error_is(x.etype, e, found) && x.location.pos()
                == at),
            ReadView::Lexical(e, at) => r matches Err(x) && (lex_error_is(x.etype, e) && x.location.pos() == at),
        },
{
    let chars = chars_of(text);
    let lexed = tokenize(chars);
    let ghost lx = lex(text@);
    proof {
        lemma_lex_numbers(text@, 0);
        assert(lexed.tokens@.map_values(|t: Token| t@) =~= lx.tokens);
    }
    let Lexed { tokens, locations, end, error } = lexed;
    let mut ts = Tokens::new(tokens, locations, end);
    let ghost ts0 = ts;
    let result = parse_scene(&mut ts);
    proof {
        match p_scene(lx.tokens, 0) {
            Parsed::Fail(e, k, _) => {
                if 0 <= k < lx.locs.len() {
                    assert(location_at(&ts0, k).pos() == lx.locs[k]);
                }
            },
            _ => {},
        }
    }
    match result {
        Ok(s) => Ok(s),
        Err(pe) => match error {
            Some(le) => {
                if ts.has_reached_end() {
                    Err(le)
                } else {
                    Err(pe)
                }
            },
            None => Err(pe),
        },
    }
}

} // verus!
