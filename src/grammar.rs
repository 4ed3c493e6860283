//! The grammar of scene descriptions, as spec functions over token
//! sequences.
//!
//! A struct is written `{ name: value ... }`, its fields in any order, each at
//! least once (the last value given counts); a variant is written as its
//! class name followed by its body; a list is written `[ item ... ]`.
//!
//! Reading from token `i` gives `Parsed::Read(value, next)`, or
//! `Parsed::Fail(error, looked, stop)`: the error, the index of the token (or
//! the end, at the length) whose reading revealed it, and where reading
//! stopped.

use vstd::prelude::*;
use crate::token::{Token, TokenView, TokenKind};
use crate::tokens::Tokens;
use crate::error::{Expected, SyntaxErrorType};
use crate::number::all_digits;
use crate::scene::{
    AngleUnit, Options, TripleView, ShapeView, MaterialView, LightModelView, PerspectiveView, CameraView,
    BackgroundView, SceneView,
};

verus! {

/// What was expected where a token did not fit.
pub enum ExpectedView {
    Kind(TokenKind),
    Word(Seq<char>),
}

/// A syntax error, without its location.
pub enum ErrView {
    Expect(ExpectedView),
    InvalidNumber(Seq<char>),
    Undefined(Seq<char>),
    Missing,
    NoClass(Seq<char>),
}

/// The outcome of reading a value from some token on.
pub enum Parsed<V> {
    Read(V, int),
    Fail(ErrView, int, int),
}

/// The token at `k`, if any.
pub open spec fn token_at(t: Seq<TokenView>, k: int) -> Option<TokenView> {
    if 0 <= k < t.len() {
        Some(t[k])
    } else {
        None
    }
}

/// The view of a found token.
pub open spec fn found_view(f: Option<Token>) -> Option<TokenView> {
    match f {
        Some(t) => Some(t@),
        None => None,
    }
}

/// `x` is the error `e`, found where `found` was looked at.
pub open spec fn error_is(x: SyntaxErrorType, e: ErrView, found: Option<TokenView>) -> bool {
    match e {
        ErrView::Expect(ExpectedView::Kind(k)) => x matches SyntaxErrorType::Expect { expected, found: f }
            && (expected == Expected::Kind(k) && found_view(f) == found),
        ErrView::Expect(ExpectedView::Word(w)) => x matches SyntaxErrorType::Expect { expected, found: f }
            && ((expected matches Expected::Word(v) && v@ == w) && found_view(f) == found),
        ErrView::InvalidNumber(n) => x matches SyntaxErrorType::InvalidNumber { num } && num@ == n,
        ErrView::Undefined(n) => x matches SyntaxErrorType::Undefined(v) && v@ == n,
        ErrView::Missing => x is Missing,
        ErrView::NoClass(n) => x matches SyntaxErrorType::NoClass(v) && v@ == n,
    }
}

/// The location reported for an error revealed by looking at token `k`.
pub open spec fn location_at(ts: &Tokens, k: int) -> crate::location::Location {
    if 0 <= k < ts.toks().len() {
        ts.locs()[k]
    } else {
        ts.end_loc()
    }
}

/// Reading from `old` into `new` gave `r`, which is the outcome `p` of the
/// grammar; `view` maps a value read to the grammar's value. After a success
/// the location is that of the last token read; after an error, that of the
/// token whose reading revealed it.
pub open spec fn answers<T, V>(
    new: &Tokens,
    old: &Tokens,
    r: Result<T, crate::error::SyntaxError>,
    p: Parsed<V>,
    view: spec_fn(T) -> V,
) -> bool {
    &&& new.wf()
    &&& new.same_input(old)
    &&& match p {
        Parsed::Read(v, j) => r matches Ok(x) && (view(x) == v && new.pos() == j && new.loc() == location_at(
            old,
            j - 1,
        ) && new.reached_end() == old.reached_end()),
        Parsed::Fail(e, k, j) => r matches Err(x) && (error_is(x.etype, e, token_at(old.toks(), k)) && x.location
            == location_at(old, k) && new.loc() == x.location && new.pos() == j && new.reached_end() == (
            old.reached_end() || k == old.toks().len())),
    }
}

/// The characters of an identifier or number token.
pub open spec fn lexeme(t: TokenView) -> Seq<char> {
    match t {
        TokenView::Identifier(v) => v,
        TokenView::Number(v) => v,
        _ => seq![],
    }
}

/// The value of a string of decimal digits.
pub open spec fn digits_value(s: Seq<char>) -> nat
    decreases s.len(),
{
    if s.len() == 0 {
        0
    } else {
        digits_value(s.drop_last()) * 10 + ((s.last() as u32) - ('0' as u32)) as nat
    }
}

/// A count: decimal digits whose value fits in a `u32`.
pub open spec fn count_literal(s: Seq<char>) -> bool {
    s.len() > 0 && all_digits(s) && digits_value(s) <= u32::MAX
}

/// The unit that an identifier names.
pub open spec fn unit_of(u: Seq<char>) -> Option<AngleUnit> {
    if u == seq!['d', 'e', 'g'] {
        Some(AngleUnit::Deg)
    } else if u == seq!['r', 'a', 'd'] {
        Some(AngleUnit::Rad)
    } else {
        None
    }
}

/// A token of kind `kind`.
pub open spec fn p_expect(t: Seq<TokenView>, i: int, kind: TokenKind) -> Parsed<TokenView> {
    if 0 <= i < t.len() && t[i].kind() == kind {
        Parsed::Read(t[i], i + 1)
    } else {
        Parsed::Fail(ErrView::Expect(ExpectedView::Kind(kind)), i, i)
    }
}

/// The identifier `w`.
pub open spec fn p_word(t: Seq<TokenView>, i: int, w: Seq<char>) -> Parsed<()> {
    if 0 <= i < t.len() && t[i] == TokenView::Identifier(w) {
        Parsed::Read((), i + 1)
    } else {
        Parsed::Fail(ErrView::Expect(ExpectedView::Word(w)), i, i)
    }
}

/// A number.
pub open spec fn p_number(t: Seq<TokenView>, i: int) -> Parsed<Seq<char>> {
    match p_expect(t, i, TokenKind::Number) {
        Parsed::Read(tok, j) => Parsed::Read(lexeme(tok), j),
        Parsed::Fail(e, k, j) => Parsed::Fail(e, k, j),
    }
}

/// A count: a number written as decimal digits that fit in a `u32`.
pub open spec fn p_count(t: Seq<TokenView>, i: int) -> Parsed<u32> {
    match p_number(t, i) {
        Parsed::Read(n, j) => if count_literal(n) {
            Parsed::Read(digits_value(n) as u32, j)
        } else {
            Parsed::Fail(ErrView::InvalidNumber(n), i, j)
        },
        Parsed::Fail(e, k, j) => Parsed::Fail(e, k, j),
    }
}

/// An angle: a number, then the identifier of its unit.
pub open spec fn p_ang(t: Seq<TokenView>, i: int) -> Parsed<(Seq<char>, AngleUnit)> {
    match p_number(t, i) {
        Parsed::Read(v, i1) => match p_expect(t, i1, TokenKind::Identifier) {
            Parsed::Read(u, i2) => match unit_of(lexeme(u)) {
                Some(unit) => Parsed::Read((v, unit), i2),
                None => Parsed::Fail(ErrView::NoClass(lexeme(u)), i1, i2),
            },
            Parsed::Fail(e, k, j) => Parsed::Fail(e, k, j),
        },
        Parsed::Fail(e, k, j) => Parsed::Fail(e, k, j),
    }
}

/// Three numbers in parentheses, `(x, y, z)`: a point or a vector.
pub open spec fn p_triple(t: Seq<TokenView>, i: int) -> Parsed<TripleView> {
    match p_expect(t, i, TokenKind::LParen) {
        Parsed::Read(_, i1) =>
            match p_number(t, i1) {
                Parsed::Read(x, i2) =>
                    match p_expect(t, i2, TokenKind::Comma) {
                        Parsed::Read(_, i3) =>
                            match p_number(t, i3) {
                                Parsed::Read(y, i4) =>
                                    match p_expect(t, i4, TokenKind::Comma) {
                                        Parsed::Read(_, i5) =>
                                            match p_number(t, i5) {
                                                Parsed::Read(z, i6) =>
                                                    match p_expect(t, i6, TokenKind::RParen) {
                                                        Parsed::Read(_, i7) =>
                                                            Parsed::Read((x, y, z), i7),
                                                        Parsed::Fail(e, k, j) => Parsed::Fail(e, k, j),
                                                    },
                                                Parsed::Fail(e, k, j) => Parsed::Fail(e, k, j),
                                            },
                                        Parsed::Fail(e, k, j) => Parsed::Fail(e, k, j),
                                    },
                                Parsed::Fail(e, k, j) => Parsed::Fail(e, k, j),
                            },
                        Parsed::Fail(e, k, j) => Parsed::Fail(e, k, j),
                    },
                Parsed::Fail(e, k, j) => Parsed::Fail(e, k, j),
            },
        Parsed::Fail(e, k, j) => Parsed::Fail(e, k, j),
    }
}

/// A color, `rgb(r, g, b)`.
pub open spec fn p_color(t: Seq<TokenView>, i: int) -> Parsed<TripleView> {
    match p_word(t, i, seq!['r', 'g', 'b']) {
        Parsed::Read(_, i1) =>
            match p_triple(t, i1) {
                Parsed::Read(v, i2) =>
                    Parsed::Read(v, i2),
                Parsed::Fail(e, k, j) => Parsed::Fail(e, k, j),
            },
        Parsed::Fail(e, k, j) => Parsed::Fail(e, k, j),
    }
}

/// A sphere: `{ center: (x, y, z) radius: r }`.
pub open spec fn p_sphere(t: Seq<TokenView>, i: int) -> Parsed<ShapeView> {
    match p_expect(t, i, TokenKind::LBrace) {
        Parsed::Read(_, j) => p_sphere_fields(t, j, None, None),
        Parsed::Fail(e, k, j) => Parsed::Fail(e, k, j),
    }
}

/// The fields of a sphere: `{ center: (x, y, z) radius: r }`. The values read so far are
/// given; a value always takes at least one token, so the recursion moves on.
pub open spec fn p_sphere_fields(
    t: Seq<TokenView>,
    i: int,
    center: Option<TripleView>,
    radius: Option<Seq<char>>,
) -> Parsed<ShapeView>
    decreases t.len() - i,
{
    if 0 <= i < t.len() && t[i] is RBrace {
        match (center, radius) {
            (Some(center), Some(radius)) => Parsed::Read(ShapeView::Sphere(center, radius), i + 1),
            _ => Parsed::Fail(ErrView::Missing, i, i + 1),
        }
    } else {
        match p_expect(t, i, TokenKind::Identifier) {
            Parsed::Read(tok, i1) => {
                let name = lexeme(tok);
                if name == seq!['c', 'e', 'n', 't', 'e', 'r'] {
                    match p_expect(t, i1, TokenKind::Colon) {
                        Parsed::Read(_, i2) => match p_triple(t, i2) {
                            Parsed::Read(v, i3) => if i < i3 <= t.len() {
                                p_sphere_fields(t, i3, Some(v), radius)
                            } else {
                                Parsed::Fail(ErrView::Missing, i3, i3)
                            },
                            Parsed::Fail(e, k, j) => Parsed::Fail(e, k, j),
                        },
                        Parsed::Fail(e, k, j) => Parsed::Fail(e, k, j),
                    }
                } else if name == seq!['r', 'a', 'd', 'i', 'u', 's'] {
                    match p_expect(t, i1, TokenKind::Colon) {
                        Parsed::Read(_, i2) => match p_number(t, i2) {
                            Parsed::Read(v, i3) => if i < i3 <= t.len() {
                                p_sphere_fields(t, i3, center, Some(v))
                            } else {
                                Parsed::Fail(ErrView::Missing, i3, i3)
                            },
                            Parsed::Fail(e, k, j) => Parsed::Fail(e, k, j),
                        },
                        Parsed::Fail(e, k, j) => Parsed::Fail(e, k, j),
                    }
                } else {
                    Parsed::Fail(ErrView::Undefined(name), i, i1)
                }
            },
            Parsed::Fail(e, k, j) => Parsed::Fail(e, k, j),
        }
    }
}

/// A plane: `{ point: (x, y, z) normal: (x, y, z) }`.
pub open spec fn p_plane(t: Seq<TokenView>, i: int) -> Parsed<ShapeView> {
    match p_expect(t, i, TokenKind::LBrace) {
        Parsed::Read(_, j) => p_plane_fields(t, j, None, None),
        Parsed::Fail(e, k, j) => Parsed::Fail(e, k, j),
    }
}

/// The fields of a plane: `{ point: (x, y, z) normal: (x, y, z) }`. The values read so far are
/// given; a value always takes at least one token, so the recursion moves on.
pub open spec fn p_plane_fields(
    t: Seq<TokenView>,
    i: int,
    point: Option<TripleView>,
    normal: Option<TripleView>,
) -> Parsed<ShapeView>
    decreases t.len() - i,
{
    if 0 <= i < t.len() && t[i] is RBrace {
        match (point, normal) {
            (Some(point), Some(normal)) => Parsed::Read(ShapeView::Plane(point, normal), i + 1),
            _ => Parsed::Fail(ErrView::Missing, i, i + 1),
        }
    } else {
        match p_expect(t, i, TokenKind::Identifier) {
            Parsed::Read(tok, i1) => {
                let name = lexeme(tok);
                if name == seq!['p', 'o', 'i', 'n', 't'] {
                    match p_expect(t, i1, TokenKind::Colon) {
                        Parsed::Read(_, i2) => match p_triple(t, i2) {
                            Parsed::Read(v, i3) => if i < i3 <= t.len() {
                                p_plane_fields(t, i3, Some(v), normal)
                            } else {
                                Parsed::Fail(ErrView::Missing, i3, i3)
                            },
                            Parsed::Fail(e, k, j) => Parsed::Fail(e, k, j),
                        },
                        Parsed::Fail(e, k, j) => Parsed::Fail(e, k, j),
                    }
                } else if name == seq!['n', 'o', 'r', 'm', 'a', 'l'] {
                    match p_expect(t, i1, TokenKind::Colon) {
                        Parsed::Read(_, i2) => match p_triple(t, i2) {
                            Parsed::Read(v, i3) => if i < i3 <= t.len() {
                                p_plane_fields(t, i3, point, Some(v))
                            } else {
                                Parsed::Fail(ErrView::Missing, i3, i3)
                            },
                            Parsed::Fail(e, k, j) => Parsed::Fail(e, k, j),
                        },
                        Parsed::Fail(e, k, j) => Parsed::Fail(e, k, j),
                    }
                } else {
                    Parsed::Fail(ErrView::Undefined(name), i, i1)
                }
            },
            Parsed::Fail(e, k, j) => Parsed::Fail(e, k, j),
        }
    }
}

/// A shape: `Sphere` or `Plane`, then its struct.
pub open spec fn p_box_shape(t: Seq<TokenView>, i: int) -> Parsed<ShapeView> {
    match p_expect(t, i, TokenKind::Identifier) {
        Parsed::Read(tok, i1) => {
            let class = lexeme(tok);
            if class == seq!['S', 'p', 'h', 'e', 'r', 'e'] {
                p_sphere(t, i1)
            } else if class == seq!['P', 'l', 'a', 'n', 'e'] {
                p_plane(t, i1)
            } else {
                Parsed::Fail(ErrView::NoClass(class), i, i1)
            }
        },
        Parsed::Fail(e, k, j) => Parsed::Fail(e, k, j),
    }
}

/// A Blinn-Phong material.
pub open spec fn p_phong_material(t: Seq<TokenView>, i: int) -> Parsed<MaterialView> {
    match p_expect(t, i, TokenKind::LBrace) {
        Parsed::Read(_, j) => p_phong_material_fields(t, j, None, None, None, None),
        Parsed::Fail(e, k, j) => Parsed::Fail(e, k, j),
    }
}

/// The fields of a Blinn-Phong material. The values read so far are
/// given; a value always takes at least one token, so the recursion moves on.
pub open spec fn p_phong_material_fields(
    t: Seq<TokenView>,
    i: int,
    diffuse: Option<TripleView>,
    specular: Option<TripleView>,
    exponent: Option<Seq<char>>,
    ambient: Option<TripleView>,
) -> Parsed<MaterialView>
    decreases t.len() - i,
{
    if 0 <= i < t.len() && t[i] is RBrace {
        match (diffuse, specular, exponent, ambient) {
            (Some(diffuse), Some(specular), Some(exponent), Some(ambient)) => Parsed::Read(MaterialView::Phong(diffuse, specular, exponent, ambient), i + 1),
            _ => Parsed::Fail(ErrView::Missing, i, i + 1),
        }
    } else {
        match p_expect(t, i, TokenKind::Identifier) {
            Parsed::Read(tok, i1) => {
                let name = lexeme(tok);
                if name == seq!['d', 'i', 'f', 'f', 'u', 's', 'e'] {
                    match p_expect(t, i1, TokenKind::Colon) {
                        Parsed::Read(_, i2) => match p_color(t, i2) {
                            Parsed::Read(v, i3) => if i < i3 <= t.len() {
                                p_phong_material_fields(t, i3, Some(v), specular, exponent, ambient)
                            } else {
                                Parsed::Fail(ErrView::Missing, i3, i3)
                            },
                            Parsed::Fail(e, k, j) => Parsed::Fail(e, k, j),
                        },
                        Parsed::Fail(e, k, j) => Parsed::Fail(e, k, j),
                    }
                } else if name == seq!['s', 'p', 'e', 'c', 'u', 'l', 'a', 'r'] {
                    match p_expect(t, i1, TokenKind::Colon) {
                        Parsed::Read(_, i2) => match p_color(t, i2) {
                            Parsed::Read(v, i3) => if i < i3 <= t.len() {
                                p_phong_material_fields(t, i3, diffuse, Some(v), exponent, ambient)
                            } else {
                                Parsed::Fail(ErrView::Missing, i3, i3)
                            },
                            Parsed::Fail(e, k, j) => Parsed::Fail(e, k, j),
                        },
                        Parsed::Fail(e, k, j) => Parsed::Fail(e, k, j),
                    }
                } else if name == seq!['e', 'x', 'p', 'o', 'n', 'e', 'n', 't'] {
                    match p_expect(t, i1, TokenKind::Colon) {
                        Parsed::Read(_, i2) => match p_number(t, i2) {
                            Parsed::Read(v, i3) => if i < i3 <= t.len() {
                                p_phong_material_fields(t, i3, diffuse, specular, Some(v), ambient)
                            } else {
                                Parsed::Fail(ErrView::Missing, i3, i3)
                            },
                            Parsed::Fail(e, k, j) => Parsed::Fail(e, k, j),
                        },
                        Parsed::Fail(e, k, j) => Parsed::Fail(e, k, j),
                    }
                } else if name == seq!['a', 'm', 'b', 'i', 'e', 'n', 't'] {
                    match p_expect(t, i1, TokenKind::Colon) {
                        Parsed::Read(_, i2) => match p_color(t, i2) {
                            Parsed::Read(v, i3) => if i < i3 <= t.len() {
                                p_phong_material_fields(t, i3, diffuse, specular, exponent, Some(v))
                            } else {
                                Parsed::Fail(ErrView::Missing, i3, i3)
                            },
                            Parsed::Fail(e, k, j) => Parsed::Fail(e, k, j),
                        },
                        Parsed::Fail(e, k, j) => Parsed::Fail(e, k, j),
                    }
                } else {
                    Parsed::Fail(ErrView::Undefined(name), i, i1)
                }
            },
            Parsed::Fail(e, k, j) => Parsed::Fail(e, k, j),
        }
    }
}

/// A Blinn-Phong material with a Fresnel term.
pub open spec fn p_fresnel_material(t: Seq<TokenView>, i: int) -> Parsed<MaterialView> {
    match p_expect(t, i, TokenKind::LBrace) {
        Parsed::Read(_, j) => p_fresnel_material_fields(t, j, None, None, None, None, None),
        Parsed::Fail(e, k, j) => Parsed::Fail(e, k, j),
    }
}

/// The fields of a Blinn-Phong material with a Fresnel term. The values read so far are
/// given; a value always takes at least one token, so the recursion moves on.
pub open spec fn p_fresnel_material_fields(
    t: Seq<TokenView>,
    i: int,
    diffuse: Option<TripleView>,
    specular: Option<TripleView>,
    exponent: Option<Seq<char>>,
    ambient: Option<TripleView>,
    ior: Option<Seq<char>>,
) -> Parsed<MaterialView>
    decreases t.len() - i,
{
    if 0 <= i < t.len() && t[i] is RBrace {
        match (diffuse, specular, exponent, ambient, ior) {
            (Some(diffuse), Some(specular), Some(exponent), Some(ambient), Some(ior)) => Parsed::Read(MaterialView::Fresnel(diffuse, specular, exponent, ambient, ior), i + 1),
            _ => Parsed::Fail(ErrView::Missing, i, i + 1),
        }
    } else {
        match p_expect(t, i, TokenKind::Identifier) {
            Parsed::Read(tok, i1) => {
                let name = lexeme(tok);
                if name == seq!['d', 'i', 'f', 'f', 'u', 's', 'e'] {
                    match p_expect(t, i1, TokenKind::Colon) {
                        Parsed::Read(_, i2) => match p_color(t, i2) {
                            Parsed::Read(v, i3) => if i < i3 <= t.len() {
                                p_fresnel_material_fields(t, i3, Some(v), specular, exponent, ambient, ior)
                            } else {
                                Parsed::Fail(ErrView::Missing, i3, i3)
                            },
                            Parsed::Fail(e, k, j) => Parsed::Fail(e, k, j),
                        },
                        Parsed::Fail(e, k, j) => Parsed::Fail(e, k, j),
                    }
                } else if name == seq!['s', 'p', 'e', 'c', 'u', 'l', 'a', 'r'] {
                    match p_expect(t, i1, TokenKind::Colon) {
                        Parsed::Read(_, i2) => match p_color(t, i2) {
                            Parsed::Read(v, i3) => if i < i3 <= t.len() {
                                p_fresnel_material_fields(t, i3, diffuse, Some(v), exponent, ambient, ior)
                            } else {
                                Parsed::Fail(ErrView::Missing, i3, i3)
                            },
                            Parsed::Fail(e, k, j) => Parsed::Fail(e, k, j),
                        },
                        Parsed::Fail(e, k, j) => Parsed::Fail(e, k, j),
                    }
                } else if name == seq!['e', 'x', 'p', 'o', 'n', 'e', 'n', 't'] {
                    match p_expect(t, i1, TokenKind::Colon) {
                        Parsed::Read(_, i2) => match p_number(t, i2) {
                            Parsed::Read(v, i3) => if i < i3 <= t.len() {
                                p_fresnel_material_fields(t, i3, diffuse, specular, Some(v), ambient, ior)
                            } else {
                                Parsed::Fail(ErrView::Missing, i3, i3)
                            },
                            Parsed::Fail(e, k, j) => Parsed::Fail(e, k, j),
                        },
                        Parsed::Fail(e, k, j) => Parsed::Fail(e, k, j),
                    }
                } else if name == seq!['a', 'm', 'b', 'i', 'e', 'n', 't'] {
                    match p_expect(t, i1, TokenKind::Colon) {
                        Parsed::Read(_, i2) => match p_color(t, i2) {
                            Parsed::Read(v, i3) => if i < i3 <= t.len() {
                                p_fresnel_material_fields(t, i3, diffuse, specular, exponent, Some(v), ior)
                            } else {
                                Parsed::Fail(ErrView::Missing, i3, i3)
                            },
                            Parsed::Fail(e, k, j) => Parsed::Fail(e, k, j),
                        },
                        Parsed::Fail(e, k, j) => Parsed::Fail(e, k, j),
                    }
                } else if name == seq!['i', 'o', 'r'] {
                    match p_expect(t, i1, TokenKind::Colon) {
                        Parsed::Read(_, i2) => match p_number(t, i2) {
                            Parsed::Read(v, i3) => if i < i3 <= t.len() {
                                p_fresnel_material_fields(t, i3, diffuse, specular, exponent, ambient, Some(v))
                            } else {
                                Parsed::Fail(ErrView::Missing, i3, i3)
                            },
                            Parsed::Fail(e, k, j) => Parsed::Fail(e, k, j),
                        },
                        Parsed::Fail(e, k, j) => Parsed::Fail(e, k, j),
                    }
                } else {
                    Parsed::Fail(ErrView::Undefined(name), i, i1)
                }
            },
            Parsed::Fail(e, k, j) => Parsed::Fail(e, k, j),
        }
    }
}

/// A transparent material.
pub open spec fn p_transparent_material(t: Seq<TokenView>, i: int) -> Parsed<MaterialView> {
    match p_expect(t, i, TokenKind::LBrace) {
        Parsed::Read(_, j) => p_transparent_material_fields(t, j, None, None, None),
        Parsed::Fail(e, k, j) => Parsed::Fail(e, k, j),
    }
}

/// The fields of a transparent material. The values read so far are
/// given; a value always takes at least one token, so the recursion moves on.
pub open spec fn p_transparent_material_fields(
    t: Seq<TokenView>,
    i: int,
    specular: Option<TripleView>,
    exponent: Option<Seq<char>>,
    ior: Option<Seq<char>>,
) -> Parsed<MaterialView>
    decreases t.len() - i,
{
    if 0 <= i < t.len() && t[i] is RBrace {
        match (specular, exponent, ior) {
            (Some(specular), Some(exponent), Some(ior)) => Parsed::Read(MaterialView::Transparent(specular, exponent, ior), i + 1),
            _ => Parsed::Fail(ErrView::Missing, i, i + 1),
        }
    } else {
        match p_expect(t, i, TokenKind::Identifier) {
            Parsed::Read(tok, i1) => {
                let name = lexeme(tok);
                if name == seq!['s', 'p', 'e', 'c', 'u', 'l', 'a', 'r'] {
                    match p_expect(t, i1, TokenKind::Colon) {
                        Parsed::Read(_, i2) => match p_color(t, i2) {
                            Parsed::Read(v, i3) => if i < i3 <= t.len() {
                                p_transparent_material_fields(t, i3, Some(v), exponent, ior)
                            } else {
                                Parsed::Fail(ErrView::Missing, i3, i3)
                            },
                            Parsed::Fail(e, k, j) => Parsed::Fail(e, k, j),
                        },
                        Parsed::Fail(e, k, j) => Parsed::Fail(e, k, j),
                    }
                } else if name == seq!['e', 'x', 'p', 'o', 'n', 'e', 'n', 't'] {
                    match p_expect(t, i1, TokenKind::Colon) {
                        Parsed::Read(_, i2) => match p_number(t, i2) {
                            Parsed::Read(v, i3) => if i < i3 <= t.len() {
                                p_transparent_material_fields(t, i3, specular, Some(v), ior)
                            } else {
                                Parsed::Fail(ErrView::Missing, i3, i3)
                            },
                            Parsed::Fail(e, k, j) => Parsed::Fail(e, k, j),
                        },
                        Parsed::Fail(e, k, j) => Parsed::Fail(e, k, j),
                    }
                } else if name == seq!['i', 'o', 'r'] {
                    match p_expect(t, i1, TokenKind::Colon) {
                        Parsed::Read(_, i2) => match p_number(t, i2) {
                            Parsed::Read(v, i3) => if i < i3 <= t.len() {
                                p_transparent_material_fields(t, i3, specular, exponent, Some(v))
                            } else {
                                Parsed::Fail(ErrView::Missing, i3, i3)
                            },
                            Parsed::Fail(e, k, j) => Parsed::Fail(e, k, j),
                        },
                        Parsed::Fail(e, k, j) => Parsed::Fail(e, k, j),
                    }
                } else {
                    Parsed::Fail(ErrView::Undefined(name), i, i1)
                }
            },
            Parsed::Fail(e, k, j) => Parsed::Fail(e, k, j),
        }
    }
}

/// A Blinn-Phong material with indirect lighting.
pub open spec fn p_indirect_phong_material(t: Seq<TokenView>, i: int) -> Parsed<MaterialView> {
    match p_expect(t, i, TokenKind::LBrace) {
        Parsed::Read(_, j) => p_indirect_phong_material_fields(t, j, None, None, None, None, None),
        Parsed::Fail(e, k, j) => Parsed::Fail(e, k, j),
    }
}

/// The fields of a Blinn-Phong material with indirect lighting. The values read so far are
/// given; a value always takes at least one token, so the recursion moves on.
pub open spec fn p_indirect_phong_material_fields(
    t: Seq<TokenView>,
    i: int,
    diffuse: Option<TripleView>,
    specular: Option<TripleView>,
    exponent: Option<Seq<char>>,
    ambient: Option<TripleView>,
    samples: Option<u32>,
) -> Parsed<MaterialView>
    decreases t.len() - i,
{
    if 0 <= i < t.len() && t[i] is RBrace {
        match (diffuse, specular, exponent, ambient, samples) {
            (Some(diffuse), Some(specular), Some(exponent), Some(ambient), Some(samples)) => Parsed::Read(MaterialView::IndirectPhong(diffuse, specular, exponent, ambient, samples), i + 1),
            _ => Parsed::Fail(ErrView::Missing, i, i + 1),
        }
    } else {
        match p_expect(t, i, TokenKind::Identifier) {
            Parsed::Read(tok, i1) => {
                let name = lexeme(tok);
                if name == seq!['d', 'i', 'f', 'f', 'u', 's', 'e'] {
                    match p_expect(t, i1, TokenKind::Colon) {
                        Parsed::Read(_, i2) => match p_color(t, i2) {
                            Parsed::Read(v, i3) => if i < i3 <= t.len() {
                                p_indirect_phong_material_fields(t, i3, Some(v), specular, exponent, ambient, samples)
                            } else {
                                Parsed::Fail(ErrView::Missing, i3, i3)
                            },
                            Parsed::Fail(e, k, j) => Parsed::Fail(e, k, j),
                        },
                        Parsed::Fail(e, k, j) => Parsed::Fail(e, k, j),
                    }
                } else if name == seq!['s', 'p', 'e', 'c', 'u', 'l', 'a', 'r'] {
                    match p_expect(t, i1, TokenKind::Colon) {
                        Parsed::Read(_, i2) => match p_color(t, i2) {
                            Parsed::Read(v, i3) => if i < i3 <= t.len() {
                                p_indirect_phong_material_fields(t, i3, diffuse, Some(v), exponent, ambient, samples)
                            } else {
                                Parsed::Fail(ErrView::Missing, i3, i3)
                            },
                            Parsed::Fail(e, k, j) => Parsed::Fail(e, k, j),
                        },
                        Parsed::Fail(e, k, j) => Parsed::Fail(e, k, j),
                    }
                } else if name == seq!['e', 'x', 'p', 'o', 'n', 'e', 'n', 't'] {
                    match p_expect(t, i1, TokenKind::Colon) {
                        Parsed::Read(_, i2) => match p_number(t, i2) {
                            Parsed::Read(v, i3) => if i < i3 <= t.len() {
                                p_indirect_phong_material_fields(t, i3, diffuse, specular, Some(v), ambient, samples)
                            } else {
                                Parsed::Fail(ErrView::Missing, i3, i3)
                            },
                            Parsed::Fail(e, k, j) => Parsed::Fail(e, k, j),
                        },
                        Parsed::Fail(e, k, j) => Parsed::Fail(e, k, j),
                    }
                } else if name == seq!['a', 'm', 'b', 'i', 'e', 'n', 't'] {
                    match p_expect(t, i1, TokenKind::Colon) {
                        Parsed::Read(_, i2) => match p_color(t, i2) {
                            Parsed::Read(v, i3) => if i < i3 <= t.len() {
                                p_indirect_phong_material_fields(t, i3, diffuse, specular, exponent, Some(v), samples)
                            } else {
                                Parsed::Fail(ErrView::Missing, i3, i3)
                            },
                            Parsed::Fail(e, k, j) => Parsed::Fail(e, k, j),
                        },
                        Parsed::Fail(e, k, j) => Parsed::Fail(e, k, j),
                    }
                } else if name == seq!['s', 'a', 'm', 'p', 'l', 'e', 's'] {
                    match p_expect(t, i1, TokenKind::Colon) {
                        Parsed::Read(_, i2) => match p_count(t, i2) {
                            Parsed::Read(v, i3) => if i < i3 <= t.len() {
                                p_indirect_phong_material_fields(t, i3, diffuse, specular, exponent, ambient, Some(v))
                            } else {
                                Parsed::Fail(ErrView::Missing, i3, i3)
                            },
                            Parsed::Fail(e, k, j) => Parsed::Fail(e, k, j),
                        },
                        Parsed::Fail(e, k, j) => Parsed::Fail(e, k, j),
                    }
                } else {
                    Parsed::Fail(ErrView::Undefined(name), i, i1)
                }
            },
            Parsed::Fail(e, k, j) => Parsed::Fail(e, k, j),
        }
    }
}

/// A material, by its class name.
pub open spec fn p_box_material(t: Seq<TokenView>, i: int) -> Parsed<MaterialView> {
    match p_expect(t, i, TokenKind::Identifier) {
        Parsed::Read(tok, i1) => {
            let class = lexeme(tok);
            if class == seq!['P', 'h', 'o', 'n', 'g', 'M', 'a', 't', 'e', 'r', 'i', 'a', 'l'] {
                p_phong_material(t, i1)
            } else if class == seq!['F', 'r', 'e', 's', 'n', 'e', 'l', 'M', 'a', 't', 'e', 'r', 'i', 'a', 'l'] {
                p_fresnel_material(t, i1)
            } else if class == seq!['T', 'r', 'a', 'n', 's', 'p', 'a', 'r', 'e', 'n', 't', 'M', 'a', 't', 'e', 'r', 'i', 'a', 'l'] {
                p_transparent_material(t, i1)
            } else if class == seq!['I', 'n', 'd', 'i', 'r', 'e', 'c', 't', 'P', 'h', 'o', 'n', 'g', 'M', 'a', 't', 'e', 'r', 'i', 'a', 'l'] {
                p_indirect_phong_material(t, i1)
            } else {
                Parsed::Fail(ErrView::NoClass(class), i, i1)
            }
        },
        Parsed::Fail(e, k, j) => Parsed::Fail(e, k, j),
    }
}

/// An object: `{ bounds: shape material: material }`.
pub open spec fn p_object(t: Seq<TokenView>, i: int) -> Parsed<(ShapeView, MaterialView)> {
    match p_expect(t, i, TokenKind::LBrace) {
        Parsed::Read(_, j) => p_object_fields(t, j, None, None),
        Parsed::Fail(e, k, j) => Parsed::Fail(e, k, j),
    }
}

/// The fields of an object: `{ bounds: shape material: material }`. The values read so far are
/// given; a value always takes at least one token, so the recursion moves on.
pub open spec fn p_object_fields(
    t: Seq<TokenView>,
    i: int,
    bounds: Option<ShapeView>,
    material: Option<MaterialView>,
) -> Parsed<(ShapeView, MaterialView)>
    decreases t.len() - i,
{
    if 0 <= i < t.len() && t[i] is RBrace {
        match (bounds, material) {
            (Some(bounds), Some(material)) => Parsed::Read((bounds, material), i + 1),
            _ => Parsed::Fail(ErrView::Missing, i, i + 1),
        }
    } else {
        match p_expect(t, i, TokenKind::Identifier) {
            Parsed::Read(tok, i1) => {
                let name = lexeme(tok);
                if name == seq!['b', 'o', 'u', 'n', 'd', 's'] {
                    match p_expect(t, i1, TokenKind::Colon) {
                        Parsed::Read(_, i2) => match p_box_shape(t, i2) {
                            Parsed::Read(v, i3) => if i < i3 <= t.len() {
                                p_object_fields(t, i3, Some(v), material)
                            } else {
                                Parsed::Fail(ErrView::Missing, i3, i3)
                            },
                            Parsed::Fail(e, k, j) => Parsed::Fail(e, k, j),
                        },
                        Parsed::Fail(e, k, j) => Parsed::Fail(e, k, j),
                    }
                } else if name == seq!['m', 'a', 't', 'e', 'r', 'i', 'a', 'l'] {
                    match p_expect(t, i1, TokenKind::Colon) {
                        Parsed::Read(_, i2) => match p_box_material(t, i2) {
                            Parsed::Read(v, i3) => if i < i3 <= t.len() {
                                p_object_fields(t, i3, bounds, Some(v))
                            } else {
                                Parsed::Fail(ErrView::Missing, i3, i3)
                            },
                            Parsed::Fail(e, k, j) => Parsed::Fail(e, k, j),
                        },
                        Parsed::Fail(e, k, j) => Parsed::Fail(e, k, j),
                    }
                } else {
                    Parsed::Fail(ErrView::Undefined(name), i, i1)
                }
            },
            Parsed::Fail(e, k, j) => Parsed::Fail(e, k, j),
        }
    }
}

/// A point light: `{ location: (x, y, z) }`.
pub open spec fn p_point_light(t: Seq<TokenView>, i: int) -> Parsed<LightModelView> {
    match p_expect(t, i, TokenKind::LBrace) {
        Parsed::Read(_, j) => p_point_light_fields(t, j, None),
        Parsed::Fail(e, k, j) => Parsed::Fail(e, k, j),
    }
}

/// The fields of a point light: `{ location: (x, y, z) }`. The values read so far are
/// given; a value always takes at least one token, so the recursion moves on.
pub open spec fn p_point_light_fields(
    t: Seq<TokenView>,
    i: int,
    location: Option<TripleView>,
) -> Parsed<LightModelView>
    decreases t.len() - i,
{
    if 0 <= i < t.len() && t[i] is RBrace {
        match (location,) {
            (Some(location),) => Parsed::Read(LightModelView::Point(location), i + 1),
            _ => Parsed::Fail(ErrView::Missing, i, i + 1),
        }
    } else {
        match p_expect(t, i, TokenKind::Identifier) {
            Parsed::Read(tok, i1) => {
                let name = lexeme(tok);
                if name == seq!['l', 'o', 'c', 'a', 't', 'i', 'o', 'n'] {
                    match p_expect(t, i1, TokenKind::Colon) {
                        Parsed::Read(_, i2) => match p_triple(t, i2) {
                            Parsed::Read(v, i3) => if i < i3 <= t.len() {
                                p_point_light_fields(t, i3, Some(v))
                            } else {
                                Parsed::Fail(ErrView::Missing, i3, i3)
                            },
                            Parsed::Fail(e, k, j) => Parsed::Fail(e, k, j),
                        },
                        Parsed::Fail(e, k, j) => Parsed::Fail(e, k, j),
                    }
                } else {
                    Parsed::Fail(ErrView::Undefined(name), i, i1)
                }
            },
            Parsed::Fail(e, k, j) => Parsed::Fail(e, k, j),
        }
    }
}

/// A directional light: `{ direction: (x, y, z) }`.
pub open spec fn p_directional_light(t: Seq<TokenView>, i: int) -> Parsed<LightModelView> {
    match p_expect(t, i, TokenKind::LBrace) {
        Parsed::Read(_, j) => p_directional_light_fields(t, j, None),
        Parsed::Fail(e, k, j) => Parsed::Fail(e, k, j),
    }
}

/// The fields of a directional light: `{ direction: (x, y, z) }`. The values read so far are
/// given; a value always takes at least one token, so the recursion moves on.
pub open spec fn p_directional_light_fields(
    t: Seq<TokenView>,
    i: int,
    direction: Option<TripleView>,
) -> Parsed<LightModelView>
    decreases t.len() - i,
{
    if 0 <= i < t.len() && t[i] is RBrace {
        match (direction,) {
            (Some(direction),) => Parsed::Read(LightModelView::Directional(direction), i + 1),
            _ => Parsed::Fail(ErrView::Missing, i, i + 1),
        }
    } else {
        match p_expect(t, i, TokenKind::Identifier) {
            Parsed::Read(tok, i1) => {
                let name = lexeme(tok);
                if name == seq!['d', 'i', 'r', 'e', 'c', 't', 'i', 'o', 'n'] {
                    match p_expect(t, i1, TokenKind::Colon) {
                        Parsed::Read(_, i2) => match p_triple(t, i2) {
                            Parsed::Read(v, i3) => if i < i3 <= t.len() {
                                p_directional_light_fields(t, i3, Some(v))
                            } else {
                                Parsed::Fail(ErrView::Missing, i3, i3)
                            },
                            Parsed::Fail(e, k, j) => Parsed::Fail(e, k, j),
                        },
                        Parsed::Fail(e, k, j) => Parsed::Fail(e, k, j),
                    }
                } else {
                    Parsed::Fail(ErrView::Undefined(name), i, i1)
                }
            },
            Parsed::Fail(e, k, j) => Parsed::Fail(e, k, j),
        }
    }
}

/// A light model, by its class name.
pub open spec fn p_box_light_model(t: Seq<TokenView>, i: int) -> Parsed<LightModelView> {
    match p_expect(t, i, TokenKind::Identifier) {
        Parsed::Read(tok, i1) => {
            let class = lexeme(tok);
            if class == seq!['P', 'o', 'i', 'n', 't', 'L', 'i', 'g', 'h', 't'] {
                p_point_light(t, i1)
            } else if class == seq!['D', 'i', 'r', 'e', 'c', 't', 'i', 'o', 'n', 'a', 'l', 'L', 'i', 'g', 'h', 't'] {
                p_directional_light(t, i1)
            } else {
                Parsed::Fail(ErrView::NoClass(class), i, i1)
            }
        },
        Parsed::Fail(e, k, j) => Parsed::Fail(e, k, j),
    }
}

/// A light: `{ model: light model color: rgb(r, g, b) }`.
pub open spec fn p_light(t: Seq<TokenView>, i: int) -> Parsed<(LightModelView, TripleView)> {
    match p_expect(t, i, TokenKind::LBrace) {
        Parsed::Read(_, j) => p_light_fields(t, j, None, None),
        Parsed::Fail(e, k, j) => Parsed::Fail(e, k, j),
    }
}

/// The fields of a light: `{ model: light model color: rgb(r, g, b) }`. The values read so far are
/// given; a value always takes at least one token, so the recursion moves on.
pub open spec fn p_light_fields(
    t: Seq<TokenView>,
    i: int,
    model: Option<LightModelView>,
    color: Option<TripleView>,
) -> Parsed<(LightModelView, TripleView)>
    decreases t.len() - i,
{
    if 0 <= i < t.len() && t[i] is RBrace {
        match (model, color) {
            (Some(model), Some(color)) => Parsed::Read((model, color), i + 1),
            _ => Parsed::Fail(ErrView::Missing, i, i + 1),
        }
    } else {
        match p_expect(t, i, TokenKind::Identifier) {
            Parsed::Read(tok, i1) => {
                let name = lexeme(tok);
                if name == seq!['m', 'o', 'd', 'e', 'l'] {
                    match p_expect(t, i1, TokenKind::Colon) {
                        Parsed::Read(_, i2) => match p_box_light_model(t, i2) {
                            Parsed::Read(v, i3) => if i < i3 <= t.len() {
                                p_light_fields(t, i3, Some(v), color)
                            } else {
                                Parsed::Fail(ErrView::Missing, i3, i3)
                            },
                            Parsed::Fail(e, k, j) => Parsed::Fail(e, k, j),
                        },
                        Parsed::Fail(e, k, j) => Parsed::Fail(e, k, j),
                    }
                } else if name == seq!['c', 'o', 'l', 'o', 'r'] {
                    match p_expect(t, i1, TokenKind::Colon) {
                        Parsed::Read(_, i2) => match p_color(t, i2) {
                            Parsed::Read(v, i3) => if i < i3 <= t.len() {
                                p_light_fields(t, i3, model, Some(v))
                            } else {
                                Parsed::Fail(ErrView::Missing, i3, i3)
                            },
                            Parsed::Fail(e, k, j) => Parsed::Fail(e, k, j),
                        },
                        Parsed::Fail(e, k, j) => Parsed::Fail(e, k, j),
                    }
                } else {
                    Parsed::Fail(ErrView::Undefined(name), i, i1)
                }
            },
            Parsed::Fail(e, k, j) => Parsed::Fail(e, k, j),
        }
    }
}

/// A perspective camera, `new(position, look, up, im_dist)`.
pub open spec fn p_new_spc(t: Seq<TokenView>, i: int) -> Parsed<PerspectiveView> {
    match p_word(t, i, seq!['n', 'e', 'w']) {
        Parsed::Read(_, i1) =>
            match p_expect(t, i1, TokenKind::LParen) {
                Parsed::Read(_, i2) =>
                    match p_triple(t, i2) {
                        Parsed::Read(position, i3) =>
                            match p_expect(t, i3, TokenKind::Comma) {
                                Parsed::Read(_, i4) =>
                                    match p_triple(t, i4) {
                                        Parsed::Read(look, i5) =>
                                            match p_expect(t, i5, TokenKind::Comma) {
                                                Parsed::Read(_, i6) =>
                                                    match p_triple(t, i6) {
                                                        Parsed::Read(up, i7) =>
                                                            match p_expect(t, i7, TokenKind::Comma) {
                                                                Parsed::Read(_, i8) =>
                                                                    match p_number(t, i8) {
                                                                        Parsed::Read(im_dist, i9) =>
                                                                            match p_expect(t, i9, TokenKind::RParen) {
                                                                                Parsed::Read(_, i10) =>
                                                                                    Parsed::Read(PerspectiveView::New(position, look, up, im_dist), i10),
                                                                                Parsed::Fail(e, k, j) => Parsed::Fail(e, k, j),
                                                                            },
                                                                        Parsed::Fail(e, k, j) => Parsed::Fail(e, k, j),
                                                                    },
                                                                Parsed::Fail(e, k, j) => Parsed::Fail(e, k, j),
                                                            },
                                                        Parsed::Fail(e, k, j) => Parsed::Fail(e, k, j),
                                                    },
                                                Parsed::Fail(e, k, j) => Parsed::Fail(e, k, j),
                                            },
                                        Parsed::Fail(e, k, j) => Parsed::Fail(e, k, j),
                                    },
                                Parsed::Fail(e, k, j) => Parsed::Fail(e, k, j),
                            },
                        Parsed::Fail(e, k, j) => Parsed::Fail(e, k, j),
                    },
                Parsed::Fail(e, k, j) => Parsed::Fail(e, k, j),
            },
        Parsed::Fail(e, k, j) => Parsed::Fail(e, k, j),
    }
}

/// A perspective camera, `look_at(focus, look, up, pov, h)`.
pub open spec fn p_look_at_spc(t: Seq<TokenView>, i: int) -> Parsed<PerspectiveView> {
    match p_word(t, i, seq!['l', 'o', 'o', 'k', '_', 'a', 't']) {
        Parsed::Read(_, i1) =>
            match p_expect(t, i1, TokenKind::LParen) {
                Parsed::Read(_, i2) =>
                    match p_triple(t, i2) {
                        Parsed::Read(focus, i3) =>
                            match p_expect(t, i3, TokenKind::Comma) {
                                Parsed::Read(_, i4) =>
                                    match p_triple(t, i4) {
                                        Parsed::Read(look, i5) =>
                                            match p_expect(t, i5, TokenKind::Comma) {
                                                Parsed::Read(_, i6) =>
                                                    match p_triple(t, i6) {
                                                        Parsed::Read(up, i7) =>
                                                            match p_expect(t, i7, TokenKind::Comma) {
                                                                Parsed::Read(_, i8) =>
                                                                    match p_ang(t, i8) {
                                                                        Parsed::Read(pov, i9) =>
                                                                            match p_expect(t, i9, TokenKind::Comma) {
                                                                                Parsed::Read(_, i10) =>
                                                                                    match p_number(t, i10) {
                                                                                        Parsed::Read(h, i11) =>
                                                                                            match p_expect(t, i11, TokenKind::RParen) {
                                                                                                Parsed::Read(_, i12) =>
                                                                                                    Parsed::Read(PerspectiveView::LookAt(focus, look, up, pov, h), i12),
                                                                                                Parsed::Fail(e, k, j) => Parsed::Fail(e, k, j),
                                                                                            },
                                                                                        Parsed::Fail(e, k, j) => Parsed::Fail(e, k, j),
                                                                                    },
                                                                                Parsed::Fail(e, k, j) => Parsed::Fail(e, k, j),
                                                                            },
                                                                        Parsed::Fail(e, k, j) => Parsed::Fail(e, k, j),
                                                                    },
                                                                Parsed::Fail(e, k, j) => Parsed::Fail(e, k, j),
                                                            },
                                                        Parsed::Fail(e, k, j) => Parsed::Fail(e, k, j),
                                                    },
                                                Parsed::Fail(e, k, j) => Parsed::Fail(e, k, j),
                                            },
                                        Parsed::Fail(e, k, j) => Parsed::Fail(e, k, j),
                                    },
                                Parsed::Fail(e, k, j) => Parsed::Fail(e, k, j),
                            },
                        Parsed::Fail(e, k, j) => Parsed::Fail(e, k, j),
                    },
                Parsed::Fail(e, k, j) => Parsed::Fail(e, k, j),
            },
        Parsed::Fail(e, k, j) => Parsed::Fail(e, k, j),
    }
}

/// A perspective camera by either constructor: `new` where the next token
/// is that identifier, else `look_at`.
pub open spec fn p_spc(t: Seq<TokenView>, i: int) -> Parsed<PerspectiveView> {
    if 0 <= i < t.len() && t[i] == TokenView::Identifier(seq!['n', 'e', 'w']) {
        p_new_spc(t, i)
    } else {
        p_look_at_spc(t, i)
    }
}

/// `SimplePerspectiveCamera`, then a constructor.
pub open spec fn p_spc_box(t: Seq<TokenView>, i: int) -> Parsed<PerspectiveView> {
    match p_word(t, i, seq!['S', 'i', 'm', 'p', 'l', 'e', 'P', 'e', 'r', 's', 'p', 'e', 'c', 't', 'i', 'v', 'e', 'C', 'a', 'm', 'e', 'r', 'a']) {
        Parsed::Read(_, i1) =>
            match p_spc(t, i1) {
                Parsed::Read(c, i2) =>
                    Parsed::Read(c, i2),
                Parsed::Fail(e, k, j) => Parsed::Fail(e, k, j),
            },
        Parsed::Fail(e, k, j) => Parsed::Fail(e, k, j),
    }
}

/// A simple perspective camera, as a camera.
pub open spec fn p_simple_camera(t: Seq<TokenView>, i: int) -> Parsed<CameraView> {
    match p_spc(t, i) {
        Parsed::Read(c, i1) =>
            Parsed::Read(CameraView::SimplePerspective(c), i1),
        Parsed::Fail(e, k, j) => Parsed::Fail(e, k, j),
    }
}

/// A depth-of-field camera: `{ camera: SimplePerspectiveCamera ... focus: f aperture: a samples: n }`.
pub open spec fn p_dof_camera(t: Seq<TokenView>, i: int) -> Parsed<CameraView> {
    match p_expect(t, i, TokenKind::LBrace) {
        Parsed::Read(_, j) => p_dof_camera_fields(t, j, None, None, None, None),
        Parsed::Fail(e, k, j) => Parsed::Fail(e, k, j),
    }
}

/// The fields of a depth-of-field camera: `{ camera: SimplePerspectiveCamera ... focus: f aperture: a samples: n }`. The values read so far are
/// given; a value always takes at least one token, so the recursion moves on.
pub open spec fn p_dof_camera_fields(
    t: Seq<TokenView>,
    i: int,
    camera: Option<PerspectiveView>,
    focus: Option<Seq<char>>,
    aperture: Option<Seq<char>>,
    samples: Option<u32>,
) -> Parsed<CameraView>
    decreases t.len() - i,
{
    if 0 <= i < t.len() && t[i] is RBrace {
        match (camera, focus, aperture, samples) {
            (Some(camera), Some(focus), Some(aperture), Some(samples)) => Parsed::Read(CameraView::DepthOfField(camera, focus, aperture, samples), i + 1),
            _ => Parsed::Fail(ErrView::Missing, i, i + 1),
        }
    } else {
        match p_expect(t, i, TokenKind::Identifier) {
            Parsed::Read(tok, i1) => {
                let name = lexeme(tok);
                if name == seq!['c', 'a', 'm', 'e', 'r', 'a'] {
                    match p_expect(t, i1, TokenKind::Colon) {
                        Parsed::Read(_, i2) => match p_spc_box(t, i2) {
                            Parsed::Read(v, i3) => if i < i3 <= t.len() {
                                p_dof_camera_fields(t, i3, Some(v), focus, aperture, samples)
                            } else {
                                Parsed::Fail(ErrView::Missing, i3, i3)
                            },
                            Parsed::Fail(e, k, j) => Parsed::Fail(e, k, j),
                        },
                        Parsed::Fail(e, k, j) => Parsed::Fail(e, k, j),
                    }
                } else if name == seq!['f', 'o', 'c', 'u', 's'] {
                    match p_expect(t, i1, TokenKind::Colon) {
                        Parsed::Read(_, i2) => match p_number(t, i2) {
                            Parsed::Read(v, i3) => if i < i3 <= t.len() {
                                p_dof_camera_fields(t, i3, camera, Some(v), aperture, samples)
                            } else {
                                Parsed::Fail(ErrView::Missing, i3, i3)
                            },
                            Parsed::Fail(e, k, j) => Parsed::Fail(e, k, j),
                        },
                        Parsed::Fail(e, k, j) => Parsed::Fail(e, k, j),
                    }
                } else if name == seq!['a', 'p', 'e', 'r', 't', 'u', 'r', 'e'] {
                    match p_expect(t, i1, TokenKind::Colon) {
                        Parsed::Read(_, i2) => match p_number(t, i2) {
                            Parsed::Read(v, i3) => if i < i3 <= t.len() {
                                p_dof_camera_fields(t, i3, camera, focus, Some(v), samples)
                            } else {
                                Parsed::Fail(ErrView::Missing, i3, i3)
                            },
                            Parsed::Fail(e, k, j) => Parsed::Fail(e, k, j),
                        },
                        Parsed::Fail(e, k, j) => Parsed::Fail(e, k, j),
                    }
                } else if name == seq!['s', 'a', 'm', 'p', 'l', 'e', 's'] {
                    match p_expect(t, i1, TokenKind::Colon) {
                        Parsed::Read(_, i2) => match p_count(t, i2) {
                            Parsed::Read(v, i3) => if i < i3 <= t.len() {
                                p_dof_camera_fields(t, i3, camera, focus, aperture, Some(v))
                            } else {
                                Parsed::Fail(ErrView::Missing, i3, i3)
                            },
                            Parsed::Fail(e, k, j) => Parsed::Fail(e, k, j),
                        },
                        Parsed::Fail(e, k, j) => Parsed::Fail(e, k, j),
                    }
                } else {
                    Parsed::Fail(ErrView::Undefined(name), i, i1)
                }
            },
            Parsed::Fail(e, k, j) => Parsed::Fail(e, k, j),
        }
    }
}

/// A camera, by its class name.
pub open spec fn p_box_camera(t: Seq<TokenView>, i: int) -> Parsed<CameraView> {
    match p_expect(t, i, TokenKind::Identifier) {
        Parsed::Read(tok, i1) => {
            let class = lexeme(tok);
            if class == seq!['S', 'i', 'm', 'p', 'l', 'e', 'P', 'e', 'r', 's', 'p', 'e', 'c', 't', 'i', 'v', 'e', 'C', 'a', 'm', 'e', 'r', 'a'] {
                p_simple_camera(t, i1)
            } else if class == seq!['D', 'e', 'p', 't', 'h', 'O', 'f', 'F', 'i', 'e', 'l', 'd', 'C', 'a', 'm', 'e', 'r', 'a'] {
                p_dof_camera(t, i1)
            } else {
                Parsed::Fail(ErrView::NoClass(class), i, i1)
            }
        },
        Parsed::Fail(e, k, j) => Parsed::Fail(e, k, j),
    }
}

/// A solid color background: `{ color: rgb(r, g, b) }`.
pub open spec fn p_solid_color_background(t: Seq<TokenView>, i: int) -> Parsed<BackgroundView> {
    match p_expect(t, i, TokenKind::LBrace) {
        Parsed::Read(_, j) => p_solid_color_background_fields(t, j, None),
        Parsed::Fail(e, k, j) => Parsed::Fail(e, k, j),
    }
}

/// The fields of a solid color background: `{ color: rgb(r, g, b) }`. The values read so far are
/// given; a value always takes at least one token, so the recursion moves on.
pub open spec fn p_solid_color_background_fields(
    t: Seq<TokenView>,
    i: int,
    color: Option<TripleView>,
) -> Parsed<BackgroundView>
    decreases t.len() - i,
{
    if 0 <= i < t.len() && t[i] is RBrace {
        match (color,) {
            (Some(color),) => Parsed::Read(BackgroundView::SolidColor(color), i + 1),
            _ => Parsed::Fail(ErrView::Missing, i, i + 1),
        }
    } else {
        match p_expect(t, i, TokenKind::Identifier) {
            Parsed::Read(tok, i1) => {
                let name = lexeme(tok);
                if name == seq!['c', 'o', 'l', 'o', 'r'] {
                    match p_expect(t, i1, TokenKind::Colon) {
                        Parsed::Read(_, i2) => match p_color(t, i2) {
                            Parsed::Read(v, i3) => if i < i3 <= t.len() {
                                p_solid_color_background_fields(t, i3, Some(v))
                            } else {
                                Parsed::Fail(ErrView::Missing, i3, i3)
                            },
                            Parsed::Fail(e, k, j) => Parsed::Fail(e, k, j),
                        },
                        Parsed::Fail(e, k, j) => Parsed::Fail(e, k, j),
                    }
                } else {
                    Parsed::Fail(ErrView::Undefined(name), i, i1)
                }
            },
            Parsed::Fail(e, k, j) => Parsed::Fail(e, k, j),
        }
    }
}

/// A background, by its class name.
pub open spec fn p_box_background(t: Seq<TokenView>, i: int) -> Parsed<BackgroundView> {
    match p_expect(t, i, TokenKind::Identifier) {
        Parsed::Read(tok, i1) => {
            let class = lexeme(tok);
            if class == seq!['S', 'o', 'l', 'i', 'd', 'C', 'o', 'l', 'o', 'r', 'B', 'a', 'c', 'k', 'g', 'r', 'o', 'u', 'n', 'd'] {
                p_solid_color_background(t, i1)
            } else {
                Parsed::Fail(ErrView::NoClass(class), i, i1)
            }
        },
        Parsed::Fail(e, k, j) => Parsed::Fail(e, k, j),
    }
}

/// Render options: `{ width: w height: h antialias: n }`, each a count.
pub open spec fn p_options(t: Seq<TokenView>, i: int) -> Parsed<Options> {
    match p_expect(t, i, TokenKind::LBrace) {
        Parsed::Read(_, j) => p_options_fields(t, j, None, None, None),
        Parsed::Fail(e, k, j) => Parsed::Fail(e, k, j),
    }
}

/// The fields of render options: `{ width: w height: h antialias: n }`, each a count. The values read so far are
/// given; a value always takes at least one token, so the recursion moves on.
pub open spec fn p_options_fields(
    t: Seq<TokenView>,
    i: int,
    width: Option<u32>,
    height: Option<u32>,
    antialias: Option<u32>,
) -> Parsed<Options>
    decreases t.len() - i,
{
    if 0 <= i < t.len() && t[i] is RBrace {
        match (width, height, antialias) {
            (Some(width), Some(height), Some(antialias)) => Parsed::Read(Options { width, height, antialias }, i + 1),
            _ => Parsed::Fail(ErrView::Missing, i, i + 1),
        }
    } else {
        match p_expect(t, i, TokenKind::Identifier) {
            Parsed::Read(tok, i1) => {
                let name = lexeme(tok);
                if name == seq!['w', 'i', 'd', 't', 'h'] {
                    match p_expect(t, i1, TokenKind::Colon) {
                        Parsed::Read(_, i2) => match p_count(t, i2) {
                            Parsed::Read(v, i3) => if i < i3 <= t.len() {
                                p_options_fields(t, i3, Some(v), height, antialias)
                            } else {
                                Parsed::Fail(ErrView::Missing, i3, i3)
                            },
                            Parsed::Fail(e, k, j) => Parsed::Fail(e, k, j),
                        },
                        Parsed::Fail(e, k, j) => Parsed::Fail(e, k, j),
                    }
                } else if name == seq!['h', 'e', 'i', 'g', 'h', 't'] {
                    match p_expect(t, i1, TokenKind::Colon) {
                        Parsed::Read(_, i2) => match p_count(t, i2) {
                            Parsed::Read(v, i3) => if i < i3 <= t.len() {
                                p_options_fields(t, i3, width, Some(v), antialias)
                            } else {
                                Parsed::Fail(ErrView::Missing, i3, i3)
                            },
                            Parsed::Fail(e, k, j) => Parsed::Fail(e, k, j),
                        },
                        Parsed::Fail(e, k, j) => Parsed::Fail(e, k, j),
                    }
                } else if name == seq!['a', 'n', 't', 'i', 'a', 'l', 'i', 'a', 's'] {
                    match p_expect(t, i1, TokenKind::Colon) {
                        Parsed::Read(_, i2) => match p_count(t, i2) {
                            Parsed::Read(v, i3) => if i < i3 <= t.len() {
                                p_options_fields(t, i3, width, height, Some(v))
                            } else {
                                Parsed::Fail(ErrView::Missing, i3, i3)
                            },
                            Parsed::Fail(e, k, j) => Parsed::Fail(e, k, j),
                        },
                        Parsed::Fail(e, k, j) => Parsed::Fail(e, k, j),
                    }
                } else {
                    Parsed::Fail(ErrView::Undefined(name), i, i1)
                }
            },
            Parsed::Fail(e, k, j) => Parsed::Fail(e, k, j),
        }
    }
}

/// A list of objects.
pub open spec fn p_objects(t: Seq<TokenView>, i: int) -> Parsed<Seq<(ShapeView, MaterialView)>> {
    match p_expect(t, i, TokenKind::LBracket) {
        Parsed::Read(_, j) => p_objects_items(t, j, seq![]),
        Parsed::Fail(e, k, j) => Parsed::Fail(e, k, j),
    }
}

/// The items of a list of objects., after those read into `acc`.
pub open spec fn p_objects_items(t: Seq<TokenView>, i: int, acc: Seq<(ShapeView, MaterialView)>) -> Parsed<Seq<(ShapeView, MaterialView)>>
    decreases t.len() - i,
{
    if 0 <= i < t.len() && t[i] is RBracket {
        Parsed::Read(acc, i + 1)
    } else {
        match p_object(t, i) {
            Parsed::Read(v, j) => if i < j <= t.len() {
                p_objects_items(t, j, acc.push(v))
            } else {
                Parsed::Fail(ErrView::Missing, j, j)
            },
            Parsed::Fail(e, k, j) => Parsed::Fail(e, k, j),
        }
    }
}

/// A list of lights.
pub open spec fn p_lights(t: Seq<TokenView>, i: int) -> Parsed<Seq<(LightModelView, TripleView)>> {
    match p_expect(t, i, TokenKind::LBracket) {
        Parsed::Read(_, j) => p_lights_items(t, j, seq![]),
        Parsed::Fail(e, k, j) => Parsed::Fail(e, k, j),
    }
}

/// The items of a list of lights., after those read into `acc`.
pub open spec fn p_lights_items(t: Seq<TokenView>, i: int, acc: Seq<(LightModelView, TripleView)>) -> Parsed<Seq<(LightModelView, TripleView)>>
    decreases t.len() - i,
{
    if 0 <= i < t.len() && t[i] is RBracket {
        Parsed::Read(acc, i + 1)
    } else {
        match p_light(t, i) {
            Parsed::Read(v, j) => if i < j <= t.len() {
                p_lights_items(t, j, acc.push(v))
            } else {
                Parsed::Fail(ErrView::Missing, j, j)
            },
            Parsed::Fail(e, k, j) => Parsed::Fail(e, k, j),
        }
    }
}

/// A scene: `{ objects: [...] lights: [...] camera: ... background: ... options: {...} }`.
pub open spec fn p_scene(t: Seq<TokenView>, i: int) -> Parsed<SceneView> {
    match p_expect(t, i, TokenKind::LBrace) {
        Parsed::Read(_, j) => p_scene_fields(t, j, None, None, None, None, None),
        Parsed::Fail(e, k, j) => Parsed::Fail(e, k, j),
    }
}

/// The fields of a scene: `{ objects: [...] lights: [...] camera: ... background: ... options: {...} }`. The values read so far are
/// given; a value always takes at least one token, so the recursion moves on.
pub open spec fn p_scene_fields(
    t: Seq<TokenView>,
    i: int,
    objects: Option<Seq<(ShapeView, MaterialView)>>,
    lights: Option<Seq<(LightModelView, TripleView)>>,
    camera: Option<CameraView>,
    background: Option<BackgroundView>,
    options: Option<Options>,
) -> Parsed<SceneView>
    decreases t.len() - i,
{
    if 0 <= i < t.len() && t[i] is RBrace {
        match (objects, lights, camera, background, options) {
            (Some(objects), Some(lights), Some(camera), Some(background), Some(options)) => Parsed::Read(SceneView { objects, lights, camera, background, options }, i + 1),
            _ => Parsed::Fail(ErrView::Missing, i, i + 1),
        }
    } else {
        match p_expect(t, i, TokenKind::Identifier) {
            Parsed::Read(tok, i1) => {
                let name = lexeme(tok);
                if name == seq!['o', 'b', 'j', 'e', 'c', 't', 's'] {
                    match p_expect(t, i1, TokenKind::Colon) {
                        Parsed::Read(_, i2) => match p_objects(t, i2) {
                            Parsed::Read(v, i3) => if i < i3 <= t.len() {
                                p_scene_fields(t, i3, Some(v), lights, camera, background, options)
                            } else {
                                Parsed::Fail(ErrView::Missing, i3, i3)
                            },
                            Parsed::Fail(e, k, j) => Parsed::Fail(e, k, j),
                        },
                        Parsed::Fail(e, k, j) => Parsed::Fail(e, k, j),
                    }
                } else if name == seq!['l', 'i', 'g', 'h', 't', 's'] {
                    match p_expect(t, i1, TokenKind::Colon) {
                        Parsed::Read(_, i2) => match p_lights(t, i2) {
                            Parsed::Read(v, i3) => if i < i3 <= t.len() {
                                p_scene_fields(t, i3, objects, Some(v), camera, background, options)
                            } else {
                                Parsed::Fail(ErrView::Missing, i3, i3)
                            },
                            Parsed::Fail(e, k, j) => Parsed::Fail(e, k, j),
                        },
                        Parsed::Fail(e, k, j) => Parsed::Fail(e, k, j),
                    }
                } else if name == seq!['c', 'a', 'm', 'e', 'r', 'a'] {
                    match p_expect(t, i1, TokenKind::Colon) {
                        Parsed::Read(_, i2) => match p_box_camera(t, i2) {
                            Parsed::Read(v, i3) => if i < i3 <= t.len() {
                                p_scene_fields(t, i3, objects, lights, Some(v), background, options)
                            } else {
                                Parsed::Fail(ErrView::Missing, i3, i3)
                            },
                            Parsed::Fail(e, k, j) => Parsed::Fail(e, k, j),
                        },
                        Parsed::Fail(e, k, j) => Parsed::Fail(e, k, j),
                    }
                } else if name == seq!['b', 'a', 'c', 'k', 'g', 'r', 'o', 'u', 'n', 'd'] {
                    match p_expect(t, i1, TokenKind::Colon) {
                        Parsed::Read(_, i2) => match p_box_background(t, i2) {
                            Parsed::Read(v, i3) => if i < i3 <= t.len() {
                                p_scene_fields(t, i3, objects, lights, camera, Some(v), options)
                            } else {
                                Parsed::Fail(ErrView::Missing, i3, i3)
                            },
                            Parsed::Fail(e, k, j) => Parsed::Fail(e, k, j),
                        },
                        Parsed::Fail(e, k, j) => Parsed::Fail(e, k, j),
                    }
                } else if name == seq!['o', 'p', 't', 'i', 'o', 'n', 's'] {
                    match p_expect(t, i1, TokenKind::Colon) {
                        Parsed::Read(_, i2) => match p_options(t, i2) {
                            Parsed::Read(v, i3) => if i < i3 <= t.len() {
                                p_scene_fields(t, i3, objects, lights, camera, background, Some(v))
                            } else {
                                Parsed::Fail(ErrView::Missing, i3, i3)
                            },
                            Parsed::Fail(e, k, j) => Parsed::Fail(e, k, j),
                        },
                        Parsed::Fail(e, k, j) => Parsed::Fail(e, k, j),
                    }
                } else {
                    Parsed::Fail(ErrView::Undefined(name), i, i1)
                }
            },
            Parsed::Fail(e, k, j) => Parsed::Fail(e, k, j),
        }
    }
}

} // verus!
