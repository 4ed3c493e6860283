//! Reading a scene description from its tokens. Each `parse_x` answers the
//! grammar's `p_x`: it reads the value, or reports the error, that `p_x`
//! gives.

use vstd::prelude::*;
use crate::token::{Token, TokenView, TokenKind};
use crate::tokens::{Tokens, is_word, numbers_valid};
use crate::error::{SyntaxError, SyntaxErrorType};
use crate::number::{float_literal, all_digits, is_digit};
use crate::grammar::{
    answers, count_literal, digits_value, p_ang, p_box_background, p_box_camera, p_box_light_model,
    p_box_material, p_box_shape, p_color, p_count, p_directional_light, p_directional_light_fields,
    p_dof_camera, p_dof_camera_fields, p_fresnel_material, p_fresnel_material_fields,
    p_indirect_phong_material, p_indirect_phong_material_fields, p_light, p_light_fields, p_lights,
    p_lights_items, p_look_at_spc, p_new_spc, p_number, p_object, p_object_fields, p_objects,
    p_objects_items, p_options, p_options_fields, p_phong_material, p_phong_material_fields,
    p_plane, p_plane_fields, p_point_light, p_point_light_fields, p_scene, p_scene_fields,
    p_simple_camera, p_solid_color_background, p_solid_color_background_fields, p_spc, p_spc_box,
    p_sphere, p_sphere_fields, p_transparent_material, p_transparent_material_fields, p_triple,
};
use crate::scene::{
    Num, Triple, Rgb, AngleUnit, Angle, ShapeDesc, MaterialDesc, ObjectDesc, LightModelDesc, LightDesc,
    PerspectiveDesc, CameraDesc, BackgroundDesc, Options, SceneDesc, object_views, light_views,
};

verus! {

/// What every reading step ensures: the tokens are the same, none was given
/// back, a success consumed at least one, and an error carries the location
/// where reading stopped.
pub open spec fn progressed<T>(new: &Tokens, old: &Tokens, r: Result<T, SyntaxError>) -> bool {
    &&& new.wf()
    &&& new.same_input(old)
    &&& new.pos() >= old.pos()
    &&& (r is Ok ==> new.pos() > old.pos())
    &&& (r matches Err(e) ==> e.location == new.loc() && !(e.etype is InvalidToken))
}

proof fn lemma_digits_value_prefix(s: Seq<char>, k: int)
    requires
        0 <= k <= s.len(),
        all_digits(s),
    ensures
        digits_value(s.take(k)) <= digits_value(s),
    decreases s.len() - k,
{
    if k < s.len() {
        lemma_digits_value_prefix(s, k + 1);
        let t = s.take(k + 1);
        assert(t.drop_last() =~= s.take(k));
        assert(is_digit(s[k]));
        assert(t.last() == s[k]);
        assert(digits_value(t) == digits_value(s.take(k)) * 10 + ((s[k] as u32) - ('0' as u32)) as nat);
        assert(digits_value(s.take(k)) <= digits_value(t)) by (nonlinear_arith)
            requires
                digits_value(t) == digits_value(s.take(k)) * 10 + ((s[k] as u32) - ('0' as u32)) as nat,
        ;
    } else {
        assert(s.take(k) =~= s);
    }
}

/// The value of a count literal, if `v` is one.
pub fn count_value(v: &Vec<char>) -> (r: Option<u32>)
    ensures
        r matches Some(n) ==> count_literal(v@) && n == digits_value(v@),
        r is None ==> !count_literal(v@),
{
    if v.len() == 0 {
        return None;
    }
    let mut k: usize = 0;
    let mut acc: u32 = 0;
    while k < v.len()
        invariant
            0 <= k <= v@.len(),
            all_digits(v@.take(k as int)),
            acc == digits_value(v@.take(k as int)),
        decreases v@.len() - k,
    {
        let c = v[k];
        proof {
            let t = v@.take(k as int + 1);
            assert(t.drop_last() =~= v@.take(k as int));
            assert(t.last() == c);
        }
        if !('0' <= c && c <= '9') {
            assert(!is_digit(v@[k as int]));
            return None;
        }
        let d: u32 = (c as u32) - ('0' as u32);
        if acc > 429496729 || (acc == 429496729 && d > 5) {
            proof {
                assert(all_digits(v@.take(k as int + 1)));
                if all_digits(v@) {
                    lemma_digits_value_prefix(v@, k as int + 1);
                }
            }
            return None;
        }
        acc = acc * 10 + d;
        k = k + 1;
        assert(all_digits(v@.take(k as int)));
    }
    assert(v@.take(v@.len() as int) =~= v@);
    Some(acc)
}

/// A number.
pub fn parse_number(ts: &mut Tokens) -> (r: Result<Num, SyntaxError>)
    requires
        old(ts).wf(),
    ensures
        progressed(final(ts), old(ts), r),
        answers(final(ts), old(ts), r, p_number(old(ts).toks(), old(ts).pos()), |v: Num| v@),
        r matches Ok(v) ==> v.wf(),
{
    proof {
        ts.lemma_wf();
    }
    match ts.expect(TokenKind::Number) {
        Ok(Token::Number(text)) => {
            proof {
                let i = old(ts).pos();
                assert(numbers_valid(old(ts).toks()));
                assert(old(ts).toks()[i] matches TokenView::Number(n) ==> float_literal(n));
            }
            Ok(Num { text })
        },
        Ok(_) => {
            proof {
                assert(false);
            }
            Err(SyntaxError { etype: SyntaxErrorType::Missing, location: ts.location() })
        },
        Err(e) => Err(e),
    }
}

/// A count: a number token written as decimal digits that fit in a `u32`.
pub fn parse_count(ts: &mut Tokens) -> (r: Result<u32, SyntaxError>)
    requires
        old(ts).wf(),
    ensures
        progressed(final(ts), old(ts), r),
        answers(final(ts), old(ts), r, p_count(old(ts).toks(), old(ts).pos()), |v: u32| v),
{
    match parse_number(ts) {
        Ok(n) => match count_value(&n.text) {
            Some(v) => Ok(v),
            None => Err(SyntaxError { etype: SyntaxErrorType::InvalidNumber { num: n.text }, location: ts.location() }),
        },
        Err(e) => Err(e),
    }
}

/// An angle: a number, then `deg` or `rad`.
pub fn parse_ang(ts: &mut Tokens) -> (r: Result<Angle, SyntaxError>)
    requires
        old(ts).wf(),
    ensures
        progressed(final(ts), old(ts), r),
        answers(final(ts), old(ts), r, p_ang(old(ts).toks(), old(ts).pos()), |v: Angle| v@),
        r matches Ok(v) ==> v.value.wf(),
{
    proof {
        ts.lemma_wf();
    }
    let value = match parse_number(ts) {
        Ok(v) => v,
        Err(e) => return Err(e),
    };
    match ts.expect(TokenKind::Identifier) {
        Ok(Token::Identifier(unit)) => {
            if is_word(&unit, &['d', 'e', 'g']) {
                Ok(Angle { value, unit: AngleUnit::Deg })
            } else if is_word(&unit, &['r', 'a', 'd']) {
                Ok(Angle { value, unit: AngleUnit::Rad })
            } else {
                Err(SyntaxError { etype: SyntaxErrorType::NoClass(unit), location: ts.location() })
            }
        },
        Ok(_) => {
            proof {
                assert(false);
            }
            Err(SyntaxError { etype: SyntaxErrorType::Missing, location: ts.location() })
        },
        Err(e) => Err(e),
    }
}

/// Three numbers in parentheses, `(x, y, z)`: a point or a vector.
pub fn parse_triple(ts: &mut Tokens) -> (r: Result<Triple, SyntaxError>)
    requires
        old(ts).wf(),
    ensures
        progressed(final(ts), old(ts), r),
        answers(final(ts), old(ts), r, p_triple(old(ts).toks(), old(ts).pos()), |v: Triple| v@),
        r matches Ok(v) ==> v.wf(),
{
    proof {
        ts.lemma_wf();
    }
    if let Err(e) = ts.expect(TokenKind::LParen) {
        return Err(e);
    }
    let x = match parse_number(ts) {
        Ok(v) => v,
        Err(e) => return Err(e),
    };
    if let Err(e) = ts.expect(TokenKind::Comma) {
        return Err(e);
    }
    let y = match parse_number(ts) {
        Ok(v) => v,
        Err(e) => return Err(e),
    };
    if let Err(e) = ts.expect(TokenKind::Comma) {
        return Err(e);
    }
    let z = match parse_number(ts) {
        Ok(v) => v,
        Err(e) => return Err(e),
    };
    if let Err(e) = ts.expect(TokenKind::RParen) {
        return Err(e);
    }
    Ok(Triple { x, y, z })
}

/// A color, `rgb(r, g, b)`.
pub fn parse_color(ts: &mut Tokens) -> (r: Result<Rgb, SyntaxError>)
    requires
        old(ts).wf(),
    ensures
        progressed(final(ts), old(ts), r),
        answers(final(ts), old(ts), r, p_color(old(ts).toks(), old(ts).pos()), |v: Rgb| v@),
        r matches Ok(v) ==> v.wf(),
{
    proof {
        ts.lemma_wf();
    }
    if let Err(e) = ts.expect_word(&['r', 'g', 'b']) {
        return Err(e);
    }
    let v = match parse_triple(ts) {
        Ok(v) => v,
        Err(e) => return Err(e),
    };
    Ok(Rgb { r: v.x, g: v.y, b: v.z })
}

/// A sphere: `{ center: (x, y, z) radius: r }`.
pub fn parse_sphere(ts: &mut Tokens) -> (r: Result<ShapeDesc, SyntaxError>)
    requires
        old(ts).wf(),
    ensures
        progressed(final(ts), old(ts), r),
        answers(final(ts), old(ts), r, p_sphere(old(ts).toks(), old(ts).pos()), |v: ShapeDesc| v@),
        r matches Ok(v) ==> v.wf(),
{
    proof {
        ts.lemma_wf();
    }
    if let Err(e) = ts.expect(TokenKind::LBrace) {
        return Err(e);
    }
    let mut center: Option<Triple> = None;
    let mut radius: Option<Num> = None;
    loop
        invariant
            ts.wf(),
            ts.same_input(old(ts)),
            ts.pos() > old(ts).pos(),
            ts.reached_end() == old(ts).reached_end(),
            p_sphere(old(ts).toks(), old(ts).pos()) == p_sphere_fields(
                old(ts).toks(),
                ts.pos(),
                match center {
                    Some(x) => Some(x@),
                    None => None,
                },
                match radius {
                    Some(x) => Some(x@),
                    None => None,
                },
            ),
            center matches Some(x) ==> x.wf(),
            radius matches Some(x) ==> x.wf(),
        decreases ts.toks().len() - ts.pos(),
    {
        proof {
            ts.lemma_wf();
        }
        if ts.accept(TokenKind::RBrace) {
            return match (center, radius) {
                (Some(center), Some(radius)) => Ok(ShapeDesc::Sphere { center, radius }),
                _ => Err(SyntaxError { etype: SyntaxErrorType::Missing, location: ts.location() }),
            };
        }
        let name = match ts.expect(TokenKind::Identifier) {
            Ok(Token::Identifier(n)) => n,
            Ok(_) => {
                proof {
                    assert(false);
                }
                return Err(SyntaxError { etype: SyntaxErrorType::Missing, location: ts.location() });
            },
            Err(e) => return Err(e),
        };
        if is_word(&name, &['c', 'e', 'n', 't', 'e', 'r']) {
            if let Err(e) = ts.expect(TokenKind::Colon) {
                return Err(e);
            }
            match parse_triple(ts) {
                Ok(v) => center = Some(v),
                Err(e) => return Err(e),
            }
        } else if is_word(&name, &['r', 'a', 'd', 'i', 'u', 's']) {
            if let Err(e) = ts.expect(TokenKind::Colon) {
                return Err(e);
            }
            match parse_number(ts) {
                Ok(v) => radius = Some(v),
                Err(e) => return Err(e),
            }
        } else {
            return Err(SyntaxError { etype: SyntaxErrorType::Undefined(name), location: ts.location() });
        }
        proof {
            ts.lemma_wf();
        }
    }
}

/// A plane: `{ point: (x, y, z) normal: (x, y, z) }`.
pub fn parse_plane(ts: &mut Tokens) -> (r: Result<ShapeDesc, SyntaxError>)
    requires
        old(ts).wf(),
    ensures
        progressed(final(ts), old(ts), r),
        answers(final(ts), old(ts), r, p_plane(old(ts).toks(), old(ts).pos()), |v: ShapeDesc| v@),
        r matches Ok(v) ==> v.wf(),
{
    proof {
        ts.lemma_wf();
    }
    if let Err(e) = ts.expect(TokenKind::LBrace) {
        return Err(e);
    }
    let mut point: Option<Triple> = None;
    let mut normal: Option<Triple> = None;
    loop
        invariant
            ts.wf(),
            ts.same_input(old(ts)),
            ts.pos() > old(ts).pos(),
            ts.reached_end() == old(ts).reached_end(),
            p_plane(old(ts).toks(), old(ts).pos()) == p_plane_fields(
                old(ts).toks(),
                ts.pos(),
                match point {
                    Some(x) => Some(x@),
                    None => None,
                },
                match normal {
                    Some(x) => Some(x@),
                    None => None,
                },
            ),
            point matches Some(x) ==> x.wf(),
            normal matches Some(x) ==> x.wf(),
        decreases ts.toks().len() - ts.pos(),
    {
        proof {
            ts.lemma_wf();
        }
        if ts.accept(TokenKind::RBrace) {
            return match (point, normal) {
                (Some(point), Some(normal)) => Ok(ShapeDesc::Plane { point, normal }),
                _ => Err(SyntaxError { etype: SyntaxErrorType::Missing, location: ts.location() }),
            };
        }
        let name = match ts.expect(TokenKind::Identifier) {
            Ok(Token::Identifier(n)) => n,
            Ok(_) => {
                proof {
                    assert(false);
                }
                return Err(SyntaxError { etype: SyntaxErrorType::Missing, location: ts.location() });
            },
            Err(e) => return Err(e),
        };
        if is_word(&name, &['p', 'o', 'i', 'n', 't']) {
            if let Err(e) = ts.expect(TokenKind::Colon) {
                return Err(e);
            }
            match parse_triple(ts) {
                Ok(v) => point = Some(v),
                Err(e) => return Err(e),
            }
        } else if is_word(&name, &['n', 'o', 'r', 'm', 'a', 'l']) {
            if let Err(e) = ts.expect(TokenKind::Colon) {
                return Err(e);
            }
            match parse_triple(ts) {
                Ok(v) => normal = Some(v),
                Err(e) => return Err(e),
            }
        } else {
            return Err(SyntaxError { etype: SyntaxErrorType::Undefined(name), location: ts.location() });
        }
        proof {
            ts.lemma_wf();
        }
    }
}

/// A shape: `Sphere` or `Plane`, then its struct.
pub fn parse_box_shape(ts: &mut Tokens) -> (r: Result<ShapeDesc, SyntaxError>)
    requires
        old(ts).wf(),
    ensures
        progressed(final(ts), old(ts), r),
        answers(final(ts), old(ts), r, p_box_shape(old(ts).toks(), old(ts).pos()), |v: ShapeDesc| v@),
        r matches Ok(v) ==> v.wf(),
{
    let class = match ts.expect(TokenKind::Identifier) {
        Ok(Token::Identifier(c)) => c,
        Ok(_) => {
            proof {
                assert(false);
            }
            return Err(SyntaxError { etype: SyntaxErrorType::Missing, location: ts.location() });
        },
        Err(e) => return Err(e),
    };
    if is_word(&class, &['S', 'p', 'h', 'e', 'r', 'e']) {
        parse_sphere(ts)
    } else if is_word(&class, &['P', 'l', 'a', 'n', 'e']) {
        parse_plane(ts)
    } else {
        Err(SyntaxError { etype: SyntaxErrorType::NoClass(class), location: ts.location() })
    }
}

/// A Blinn-Phong material.
#[verifier::rlimit(80)]
#[verifier::spinoff_prover]
pub fn parse_phong_material(ts: &mut Tokens) -> (r: Result<MaterialDesc, SyntaxError>)
    requires
        old(ts).wf(),
    ensures
        progressed(final(ts), old(ts), r),
        answers(final(ts), old(ts), r, p_phong_material(old(ts).toks(), old(ts).pos()), |v: MaterialDesc| v@),
        r matches Ok(v) ==> v.wf(),
{
    proof {
        ts.lemma_wf();
    }
    if let Err(e) = ts.expect(TokenKind::LBrace) {
        return Err(e);
    }
    let mut diffuse: Option<Rgb> = None;
    let mut specular: Option<Rgb> = None;
    let mut exponent: Option<Num> = None;
    let mut ambient: Option<Rgb> = None;
    loop
        invariant
            ts.wf(),
            ts.same_input(old(ts)),
            ts.pos() > old(ts).pos(),
            ts.reached_end() == old(ts).reached_end(),
            p_phong_material(old(ts).toks(), old(ts).pos()) == p_phong_material_fields(
                old(ts).toks(),
                ts.pos(),
                match diffuse {
                    Some(x) => Some(x@),
                    None => None,
                },
                match specular {
                    Some(x) => Some(x@),
                    None => None,
                },
                match exponent {
                    Some(x) => Some(x@),
                    None => None,
                },
                match ambient {
                    Some(x) => Some(x@),
                    None => None,
                },
            ),
            diffuse matches Some(x) ==> x.wf(),
            specular matches Some(x) ==> x.wf(),
            exponent matches Some(x) ==> x.wf(),
            ambient matches Some(x) ==> x.wf(),
        decreases ts.toks().len() - ts.pos(),
    {
        proof {
            ts.lemma_wf();
        }
        if ts.accept(TokenKind::RBrace) {
            return match (diffuse, specular, exponent, ambient) {
                (Some(diffuse), Some(specular), Some(exponent), Some(ambient)) => Ok(MaterialDesc::Phong { diffuse, specular, exponent, ambient }),
                _ => Err(SyntaxError { etype: SyntaxErrorType::Missing, location: ts.location() }),
            };
        }
        let name = match ts.expect(TokenKind::Identifier) {
            Ok(Token::Identifier(n)) => n,
            Ok(_) => {
                proof {
                    assert(false);
                }
                return Err(SyntaxError { etype: SyntaxErrorType::Missing, location: ts.location() });
            },
            Err(e) => return Err(e),
        };
        if is_word(&name, &['d', 'i', 'f', 'f', 'u', 's', 'e']) {
            if let Err(e) = ts.expect(TokenKind::Colon) {
                return Err(e);
            }
            match parse_color(ts) {
                Ok(v) => diffuse = Some(v),
                Err(e) => return Err(e),
            }
        } else if is_word(&name, &['s', 'p', 'e', 'c', 'u', 'l', 'a', 'r']) {
            if let Err(e) = ts.expect(TokenKind::Colon) {
                return Err(e);
            }
            match parse_color(ts) {
                Ok(v) => specular = Some(v),
                Err(e) => return Err(e),
            }
        } else if is_word(&name, &['e', 'x', 'p', 'o', 'n', 'e', 'n', 't']) {
            if let Err(e) = ts.expect(TokenKind::Colon) {
                return Err(e);
            }
            match parse_number(ts) {
                Ok(v) => exponent = Some(v),
                Err(e) => return Err(e),
            }
        } else if is_word(&name, &['a', 'm', 'b', 'i', 'e', 'n', 't']) {
            if let Err(e) = ts.expect(TokenKind::Colon) {
                return Err(e);
            }
            match parse_color(ts) {
                Ok(v) => ambient = Some(v),
                Err(e) => return Err(e),
            }
        } else {
            return Err(SyntaxError { etype: SyntaxErrorType::Undefined(name), location: ts.location() });
        }
        proof {
            ts.lemma_wf();
        }
    }
}

/// A Blinn-Phong material with a Fresnel term.
#[verifier::rlimit(80)]
#[verifier::spinoff_prover]
pub fn parse_fresnel_material(ts: &mut Tokens) -> (r: Result<MaterialDesc, SyntaxError>)
    requires
        old(ts).wf(),
    ensures
        progressed(final(ts), old(ts), r),
        answers(final(ts), old(ts), r, p_fresnel_material(old(ts).toks(), old(ts).pos()), |v: MaterialDesc| v@),
        r matches Ok(v) ==> v.wf(),
{
    proof {
        ts.lemma_wf();
    }
    if let Err(e) = ts.expect(TokenKind::LBrace) {
        return Err(e);
    }
    let mut diffuse: Option<Rgb> = None;
    let mut specular: Option<Rgb> = None;
    let mut exponent: Option<Num> = None;
    let mut ambient: Option<Rgb> = None;
    let mut ior: Option<Num> = None;
    loop
        invariant
            ts.wf(),
            ts.same_input(old(ts)),
            ts.pos() > old(ts).pos(),
            ts.reached_end() == old(ts).reached_end(),
            p_fresnel_material(old(ts).toks(), old(ts).pos()) == p_fresnel_material_fields(
                old(ts).toks(),
                ts.pos(),
                match diffuse {
                    Some(x) => Some(x@),
                    None => None,
                },
                match specular {
                    Some(x) => Some(x@),
                    None => None,
                },
                match exponent {
                    Some(x) => Some(x@),
                    None => None,
                },
                match ambient {
                    Some(x) => Some(x@),
                    None => None,
                },
                match ior {
                    Some(x) => Some(x@),
                    None => None,
                },
            ),
            diffuse matches Some(x) ==> x.wf(),
            specular matches Some(x) ==> x.wf(),
            exponent matches Some(x) ==> x.wf(),
            ambient matches Some(x) ==> x.wf(),
            ior matches Some(x) ==> x.wf(),
        decreases ts.toks().len() - ts.pos(),
    {
        proof {
            ts.lemma_wf();
        }
        if ts.accept(TokenKind::RBrace) {
            return match (diffuse, specular, exponent, ambient, ior) {
                (Some(diffuse), Some(specular), Some(exponent), Some(ambient), Some(ior)) => Ok(MaterialDesc::Fresnel { diffuse, specular, exponent, ambient, ior }),
                _ => Err(SyntaxError { etype: SyntaxErrorType::Missing, location: ts.location() }),
            };
        }
        let name = match ts.expect(TokenKind::Identifier) {
            Ok(Token::Identifier(n)) => n,
            Ok(_) => {
                proof {
                    assert(false);
                }
                return Err(SyntaxError { etype: SyntaxErrorType::Missing, location: ts.location() });
            },
            Err(e) => return Err(e),
        };
        if is_word(&name, &['d', 'i', 'f', 'f', 'u', 's', 'e']) {
            if let Err(e) = ts.expect(TokenKind::Colon) {
                return Err(e);
            }
            match parse_color(ts) {
                Ok(v) => diffuse = Some(v),
                Err(e) => return Err(e),
            }
        } else if is_word(&name, &['s', 'p', 'e', 'c', 'u', 'l', 'a', 'r']) {
            if let Err(e) = ts.expect(TokenKind::Colon) {
                return Err(e);
            }
            match parse_color(ts) {
                Ok(v) => specular = Some(v),
                Err(e) => return Err(e),
            }
        } else if is_word(&name, &['e', 'x', 'p', 'o', 'n', 'e', 'n', 't']) {
            if let Err(e) = ts.expect(TokenKind::Colon) {
                return Err(e);
            }
            match parse_number(ts) {
                Ok(v) => exponent = Some(v),
                Err(e) => return Err(e),
            }
        } else if is_word(&name, &['a', 'm', 'b', 'i', 'e', 'n', 't']) {
            if let Err(e) = ts.expect(TokenKind::Colon) {
                return Err(e);
            }
            match parse_color(ts) {
                Ok(v) => ambient = Some(v),
                Err(e) => return Err(e),
            }
        } else if is_word(&name, &['i', 'o', 'r']) {
            if let Err(e) = ts.expect(TokenKind::Colon) {
                return Err(e);
            }
            match parse_number(ts) {
                Ok(v) => ior = Some(v),
                Err(e) => return Err(e),
            }
        } else {
            return Err(SyntaxError { etype: SyntaxErrorType::Undefined(name), location: ts.location() });
        }
        proof {
            ts.lemma_wf();
        }
    }
}

/// A transparent material.
pub fn parse_transparent_material(ts: &mut Tokens) -> (r: Result<MaterialDesc, SyntaxError>)
    requires
        old(ts).wf(),
    ensures
        progressed(final(ts), old(ts), r),
        answers(final(ts), old(ts), r, p_transparent_material(old(ts).toks(), old(ts).pos()), |v: MaterialDesc| v@),
        r matches Ok(v) ==> v.wf(),
{
    proof {
        ts.lemma_wf();
    }
    if let Err(e) = ts.expect(TokenKind::LBrace) {
        return Err(e);
    }
    let mut specular: Option<Rgb> = None;
    let mut exponent: Option<Num> = None;
    let mut ior: Option<Num> = None;
    loop
        invariant
            ts.wf(),
            ts.same_input(old(ts)),
            ts.pos() > old(ts).pos(),
            ts.reached_end() == old(ts).reached_end(),
            p_transparent_material(old(ts).toks(), old(ts).pos()) == p_transparent_material_fields(
                old(ts).toks(),
                ts.pos(),
                match specular {
                    Some(x) => Some(x@),
                    None => None,
                },
                match exponent {
                    Some(x) => Some(x@),
                    None => None,
                },
                match ior {
                    Some(x) => Some(x@),
                    None => None,
                },
            ),
            specular matches Some(x) ==> x.wf(),
            exponent matches Some(x) ==> x.wf(),
            ior matches Some(x) ==> x.wf(),
        decreases ts.toks().len() - ts.pos(),
    {
        proof {
            ts.lemma_wf();
        }
        if ts.accept(TokenKind::RBrace) {
            return match (specular, exponent, ior) {
                (Some(specular), Some(exponent), Some(ior)) => Ok(MaterialDesc::Transparent { specular, exponent, ior }),
                _ => Err(SyntaxError { etype: SyntaxErrorType::Missing, location: ts.location() }),
            };
        }
        let name = match ts.expect(TokenKind::Identifier) {
            Ok(Token::Identifier(n)) => n,
            Ok(_) => {
                proof {
                    assert(false);
                }
                return Err(SyntaxError { etype: SyntaxErrorType::Missing, location: ts.location() });
            },
            Err(e) => return Err(e),
        };
        if is_word(&name, &['s', 'p', 'e', 'c', 'u', 'l', 'a', 'r']) {
            if let Err(e) = ts.expect(TokenKind::Colon) {
                return Err(e);
            }
            match parse_color(ts) {
                Ok(v) => specular = Some(v),
                Err(e) => return Err(e),
            }
        } else if is_word(&name, &['e', 'x', 'p', 'o', 'n', 'e', 'n', 't']) {
            if let Err(e) = ts.expect(TokenKind::Colon) {
                return Err(e);
            }
            match parse_number(ts) {
                Ok(v) => exponent = Some(v),
                Err(e) => return Err(e),
            }
        } else if is_word(&name, &['i', 'o', 'r']) {
            if let Err(e) = ts.expect(TokenKind::Colon) {
                return Err(e);
            }
            match parse_number(ts) {
                Ok(v) => ior = Some(v),
                Err(e) => return Err(e),
            }
        } else {
            return Err(SyntaxError { etype: SyntaxErrorType::Undefined(name), location: ts.location() });
        }
        proof {
            ts.lemma_wf();
        }
    }
}

/// A Blinn-Phong material with indirect lighting.
#[verifier::rlimit(80)]
#[verifier::spinoff_prover]
pub fn parse_indirect_phong_material(ts: &mut Tokens) -> (r: Result<MaterialDesc, SyntaxError>)
    requires
        old(ts).wf(),
    ensures
        progressed(final(ts), old(ts), r),
        answers(final(ts), old(ts), r, p_indirect_phong_material(old(ts).toks(), old(ts).pos()), |v: MaterialDesc| v@),
        r matches Ok(v) ==> v.wf(),
{
    proof {
        ts.lemma_wf();
    }
    if let Err(e) = ts.expect(TokenKind::LBrace) {
        return Err(e);
    }
    let mut diffuse: Option<Rgb> = None;
    let mut specular: Option<Rgb> = None;
    let mut exponent: Option<Num> = None;
    let mut ambient: Option<Rgb> = None;
    let mut samples: Option<u32> = None;
    loop
        invariant
            ts.wf(),
            ts.same_input(old(ts)),
            ts.pos() > old(ts).pos(),
            ts.reached_end() == old(ts).reached_end(),
            p_indirect_phong_material(old(ts).toks(), old(ts).pos()) == p_indirect_phong_material_fields(
                old(ts).toks(),
                ts.pos(),
                match diffuse {
                    Some(x) => Some(x@),
                    None => None,
                },
                match specular {
                    Some(x) => Some(x@),
                    None => None,
                },
                match exponent {
                    Some(x) => Some(x@),
                    None => None,
                },
                match ambient {
                    Some(x) => Some(x@),
                    None => None,
                },
                match samples {
                    Some(x) => Some(x),
                    None => None,
                },
            ),
            diffuse matches Some(x) ==> x.wf(),
            specular matches Some(x) ==> x.wf(),
            exponent matches Some(x) ==> x.wf(),
            ambient matches Some(x) ==> x.wf(),
        decreases ts.toks().len() - ts.pos(),
    {
        proof {
            ts.lemma_wf();
        }
        if ts.accept(TokenKind::RBrace) {
            return match (diffuse, specular, exponent, ambient, samples) {
                (Some(diffuse), Some(specular), Some(exponent), Some(ambient), Some(samples)) => Ok(MaterialDesc::IndirectPhong { diffuse, specular, exponent, ambient, samples }),
                _ => Err(SyntaxError { etype: SyntaxErrorType::Missing, location: ts.location() }),
            };
        }
        let name = match ts.expect(TokenKind::Identifier) {
            Ok(Token::Identifier(n)) => n,
            Ok(_) => {
                proof {
                    assert(false);
                }
                return Err(SyntaxError { etype: SyntaxErrorType::Missing, location: ts.location() });
            },
            Err(e) => return Err(e),
        };
        if is_word(&name, &['d', 'i', 'f', 'f', 'u', 's', 'e']) {
            if let Err(e) = ts.expect(TokenKind::Colon) {
                return Err(e);
            }
            match parse_color(ts) {
                Ok(v) => diffuse = Some(v),
                Err(e) => return Err(e),
            }
        } else if is_word(&name, &['s', 'p', 'e', 'c', 'u', 'l', 'a', 'r']) {
            if let Err(e) = ts.expect(TokenKind::Colon) {
                return Err(e);
            }
            match parse_color(ts) {
                Ok(v) => specular = Some(v),
                Err(e) => return Err(e),
            }
        } else if is_word(&name, &['e', 'x', 'p', 'o', 'n', 'e', 'n', 't']) {
            if let Err(e) = ts.expect(TokenKind::Colon) {
                return Err(e);
            }
            match parse_number(ts) {
                Ok(v) => exponent = Some(v),
                Err(e) => return Err(e),
            }
        } else if is_word(&name, &['a', 'm', 'b', 'i', 'e', 'n', 't']) {
            if let Err(e) = ts.expect(TokenKind::Colon) {
                return Err(e);
            }
            match parse_color(ts) {
                Ok(v) => ambient = Some(v),
                Err(e) => return Err(e),
            }
        } else if is_word(&name, &['s', 'a', 'm', 'p', 'l', 'e', 's']) {
            if let Err(e) = ts.expect(TokenKind::Colon) {
                return Err(e);
            }
            match parse_count(ts) {
                Ok(v) => samples = Some(v),
                Err(e) => return Err(e),
            }
        } else {
            return Err(SyntaxError { etype: SyntaxErrorType::Undefined(name), location: ts.location() });
        }
        proof {
            ts.lemma_wf();
        }
    }
}

/// A material, by its class name.
pub fn parse_box_material(ts: &mut Tokens) -> (r: Result<MaterialDesc, SyntaxError>)
    requires
        old(ts).wf(),
    ensures
        progressed(final(ts), old(ts), r),
        answers(final(ts), old(ts), r, p_box_material(old(ts).toks(), old(ts).pos()), |v: MaterialDesc| v@),
        r matches Ok(v) ==> v.wf(),
{
    let class = match ts.expect(TokenKind::Identifier) {
        Ok(Token::Identifier(c)) => c,
        Ok(_) => {
            proof {
                assert(false);
            }
            return Err(SyntaxError { etype: SyntaxErrorType::Missing, location: ts.location() });
        },
        Err(e) => return Err(e),
    };
    if is_word(&class, &['P', 'h', 'o', 'n', 'g', 'M', 'a', 't', 'e', 'r', 'i', 'a', 'l']) {
        parse_phong_material(ts)
    } else if is_word(&class, &['F', 'r', 'e', 's', 'n', 'e', 'l', 'M', 'a', 't', 'e', 'r', 'i', 'a', 'l']) {
        parse_fresnel_material(ts)
    } else if is_word(&class, &['T', 'r', 'a', 'n', 's', 'p', 'a', 'r', 'e', 'n', 't', 'M', 'a', 't', 'e', 'r', 'i', 'a', 'l']) {
        parse_transparent_material(ts)
    } else if is_word(&class, &['I', 'n', 'd', 'i', 'r', 'e', 'c', 't', 'P', 'h', 'o', 'n', 'g', 'M', 'a', 't', 'e', 'r', 'i', 'a', 'l']) {
        parse_indirect_phong_material(ts)
    } else {
        Err(SyntaxError { etype: SyntaxErrorType::NoClass(class), location: ts.location() })
    }
}

/// An object: `{ bounds: shape material: material }`.
pub fn parse_object(ts: &mut Tokens) -> (r: Result<ObjectDesc, SyntaxError>)
    requires
        old(ts).wf(),
    ensures
        progressed(final(ts), old(ts), r),
        answers(final(ts), old(ts), r, p_object(old(ts).toks(), old(ts).pos()), |v: ObjectDesc| v@),
        r matches Ok(v) ==> v.wf(),
{
    proof {
        ts.lemma_wf();
    }
    if let Err(e) = ts.expect(TokenKind::LBrace) {
        return Err(e);
    }
    let mut bounds: Option<ShapeDesc> = None;
    let mut material: Option<MaterialDesc> = None;
    loop
        invariant
            ts.wf(),
            ts.same_input(old(ts)),
            ts.pos() > old(ts).pos(),
            ts.reached_end() == old(ts).reached_end(),
            p_object(old(ts).toks(), old(ts).pos()) == p_object_fields(
                old(ts).toks(),
                ts.pos(),
                match bounds {
                    Some(x) => Some(x@),
                    None => None,
                },
                match material {
                    Some(x) => Some(x@),
                    None => None,
                },
            ),
            bounds matches Some(x) ==> x.wf(),
            material matches Some(x) ==> x.wf(),
        decreases ts.toks().len() - ts.pos(),
    {
        proof {
            ts.lemma_wf();
        }
        if ts.accept(TokenKind::RBrace) {
            return match (bounds, material) {
                (Some(bounds), Some(material)) => Ok(ObjectDesc { bounds, material }),
                _ => Err(SyntaxError { etype: SyntaxErrorType::Missing, location: ts.location() }),
            };
        }
        let name = match ts.expect(TokenKind::Identifier) {
            Ok(Token::Identifier(n)) => n,
            Ok(_) => {
                proof {
                    assert(false);
                }
                return Err(SyntaxError { etype: SyntaxErrorType::Missing, location: ts.location() });
            },
            Err(e) => return Err(e),
        };
        if is_word(&name, &['b', 'o', 'u', 'n', 'd', 's']) {
            if let Err(e) = ts.expect(TokenKind::Colon) {
                return Err(e);
            }
            match parse_box_shape(ts) {
                Ok(v) => bounds = Some(v),
                Err(e) => return Err(e),
            }
        } else if is_word(&name, &['m', 'a', 't', 'e', 'r', 'i', 'a', 'l']) {
            if let Err(e) = ts.expect(TokenKind::Colon) {
                return Err(e);
            }
            match parse_box_material(ts) {
                Ok(v) => material = Some(v),
                Err(e) => return Err(e),
            }
        } else {
            return Err(SyntaxError { etype: SyntaxErrorType::Undefined(name), location: ts.location() });
        }
        proof {
            ts.lemma_wf();
        }
    }
}

/// A point light: `{ location: (x, y, z) }`.
pub fn parse_point_light(ts: &mut Tokens) -> (r: Result<LightModelDesc, SyntaxError>)
    requires
        old(ts).wf(),
    ensures
        progressed(final(ts), old(ts), r),
        answers(final(ts), old(ts), r, p_point_light(old(ts).toks(), old(ts).pos()), |v: LightModelDesc| v@),
        r matches Ok(v) ==> v.wf(),
{
    proof {
        ts.lemma_wf();
    }
    if let Err(e) = ts.expect(TokenKind::LBrace) {
        return Err(e);
    }
    let mut location: Option<Triple> = None;
    loop
        invariant
            ts.wf(),
            ts.same_input(old(ts)),
            ts.pos() > old(ts).pos(),
            ts.reached_end() == old(ts).reached_end(),
            p_point_light(old(ts).toks(), old(ts).pos()) == p_point_light_fields(
                old(ts).toks(),
                ts.pos(),
                match location {
                    Some(x) => Some(x@),
                    None => None,
                },
            ),
            location matches Some(x) ==> x.wf(),
        decreases ts.toks().len() - ts.pos(),
    {
        proof {
            ts.lemma_wf();
        }
        if ts.accept(TokenKind::RBrace) {
            return match (location,) {
                (Some(location),) => Ok(LightModelDesc::Point { location }),
                _ => Err(SyntaxError { etype: SyntaxErrorType::Missing, location: ts.location() }),
            };
        }
        let name = match ts.expect(TokenKind::Identifier) {
            Ok(Token::Identifier(n)) => n,
            Ok(_) => {
                proof {
                    assert(false);
                }
                return Err(SyntaxError { etype: SyntaxErrorType::Missing, location: ts.location() });
            },
            Err(e) => return Err(e),
        };
        if is_word(&name, &['l', 'o', 'c', 'a', 't', 'i', 'o', 'n']) {
            if let Err(e) = ts.expect(TokenKind::Colon) {
                return Err(e);
            }
            match parse_triple(ts) {
                Ok(v) => location = Some(v),
                Err(e) => return Err(e),
            }
        } else {
            return Err(SyntaxError { etype: SyntaxErrorType::Undefined(name), location: ts.location() });
        }
        proof {
            ts.lemma_wf();
        }
    }
}

/// A directional light: `{ direction: (x, y, z) }`.
pub fn parse_directional_light(ts: &mut Tokens) -> (r: Result<LightModelDesc, SyntaxError>)
    requires
        old(ts).wf(),
    ensures
        progressed(final(ts), old(ts), r),
        answers(final(ts), old(ts), r, p_directional_light(old(ts).toks(), old(ts).pos()), |v: LightModelDesc| v@),
        r matches Ok(v) ==> v.wf(),
{
    proof {
        ts.lemma_wf();
    }
    if let Err(e) = ts.expect(TokenKind::LBrace) {
        return Err(e);
    }
    let mut direction: Option<Triple> = None;
    loop
        invariant
            ts.wf(),
            ts.same_input(old(ts)),
            ts.pos() > old(ts).pos(),
            ts.reached_end() == old(ts).reached_end(),
            p_directional_light(old(ts).toks(), old(ts).pos()) == p_directional_light_fields(
                old(ts).toks(),
                ts.pos(),
                match direction {
                    Some(x) => Some(x@),
                    None => None,
                },
            ),
            direction matches Some(x) ==> x.wf(),
        decreases ts.toks().len() - ts.pos(),
    {
        proof {
            ts.lemma_wf();
        }
        if ts.accept(TokenKind::RBrace) {
            return match (direction,) {
                (Some(direction),) => Ok(LightModelDesc::Directional { direction }),
                _ => Err(SyntaxError { etype: SyntaxErrorType::Missing, location: ts.location() }),
            };
        }
        let name = match ts.expect(TokenKind::Identifier) {
            Ok(Token::Identifier(n)) => n,
            Ok(_) => {
                proof {
                    assert(false);
                }
                return Err(SyntaxError { etype: SyntaxErrorType::Missing, location: ts.location() });
            },
            Err(e) => return Err(e),
        };
        if is_word(&name, &['d', 'i', 'r', 'e', 'c', 't', 'i', 'o', 'n']) {
            if let Err(e) = ts.expect(TokenKind::Colon) {
                return Err(e);
            }
            match parse_triple(ts) {
                Ok(v) => direction = Some(v),
                Err(e) => return Err(e),
            }
        } else {
            return Err(SyntaxError { etype: SyntaxErrorType::Undefined(name), location: ts.location() });
        }
        proof {
            ts.lemma_wf();
        }
    }
}

/// A light model, by its class name.
pub fn parse_box_light_model(ts: &mut Tokens) -> (r: Result<LightModelDesc, SyntaxError>)
    requires
        old(ts).wf(),
    ensures
        progressed(final(ts), old(ts), r),
        answers(final(ts), old(ts), r, p_box_light_model(old(ts).toks(), old(ts).pos()), |v: LightModelDesc| v@),
        r matches Ok(v) ==> v.wf(),
{
    let class = match ts.expect(TokenKind::Identifier) {
        Ok(Token::Identifier(c)) => c,
        Ok(_) => {
            proof {
                assert(false);
            }
            return Err(SyntaxError { etype: SyntaxErrorType::Missing, location: ts.location() });
        },
        Err(e) => return Err(e),
    };
    if is_word(&class, &['P', 'o', 'i', 'n', 't', 'L', 'i', 'g', 'h', 't']) {
        parse_point_light(ts)
    } else if is_word(&class, &['D', 'i', 'r', 'e', 'c', 't', 'i', 'o', 'n', 'a', 'l', 'L', 'i', 'g', 'h', 't']) {
        parse_directional_light(ts)
    } else {
        Err(SyntaxError { etype: SyntaxErrorType::NoClass(class), location: ts.location() })
    }
}

/// A light: `{ model: light model color: rgb(r, g, b) }`.
pub fn parse_light(ts: &mut Tokens) -> (r: Result<LightDesc, SyntaxError>)
    requires
        old(ts).wf(),
    ensures
        progressed(final(ts), old(ts), r),
        answers(final(ts), old(ts), r, p_light(old(ts).toks(), old(ts).pos()), |v: LightDesc| v@),
        r matches Ok(v) ==> v.wf(),
{
    proof {
        ts.lemma_wf();
    }
    if let Err(e) = ts.expect(TokenKind::LBrace) {
        return Err(e);
    }
    let mut model: Option<LightModelDesc> = None;
    let mut color: Option<Rgb> = None;
    loop
        invariant
            ts.wf(),
            ts.same_input(old(ts)),
            ts.pos() > old(ts).pos(),
            ts.reached_end() == old(ts).reached_end(),
            p_light(old(ts).toks(), old(ts).pos()) == p_light_fields(
                old(ts).toks(),
                ts.pos(),
                match model {
                    Some(x) => Some(x@),
                    None => None,
                },
                match color {
                    Some(x) => Some(x@),
                    None => None,
                },
            ),
            model matches Some(x) ==> x.wf(),
            color matches Some(x) ==> x.wf(),
        decreases ts.toks().len() - ts.pos(),
    {
        proof {
            ts.lemma_wf();
        }
        if ts.accept(TokenKind::RBrace) {
            return match (model, color) {
                (Some(model), Some(color)) => Ok(LightDesc { model, color }),
                _ => Err(SyntaxError { etype: SyntaxErrorType::Missing, location: ts.location() }),
            };
        }
        let name = match ts.expect(TokenKind::Identifier) {
            Ok(Token::Identifier(n)) => n,
            Ok(_) => {
                proof {
                    assert(false);
                }
                return Err(SyntaxError { etype: SyntaxErrorType::Missing, location: ts.location() });
            },
            Err(e) => return Err(e),
        };
        if is_word(&name, &['m', 'o', 'd', 'e', 'l']) {
            if let Err(e) = ts.expect(TokenKind::Colon) {
                return Err(e);
            }
            match parse_box_light_model(ts) {
                Ok(v) => model = Some(v),
                Err(e) => return Err(e),
            }
        } else if is_word(&name, &['c', 'o', 'l', 'o', 'r']) {
            if let Err(e) = ts.expect(TokenKind::Colon) {
                return Err(e);
            }
            match parse_color(ts) {
                Ok(v) => color = Some(v),
                Err(e) => return Err(e),
            }
        } else {
            return Err(SyntaxError { etype: SyntaxErrorType::Undefined(name), location: ts.location() });
        }
        proof {
            ts.lemma_wf();
        }
    }
}

/// A perspective camera, `new(position, look, up, im_dist)`.
pub fn parse_new_spc(ts: &mut Tokens) -> (r: Result<PerspectiveDesc, SyntaxError>)
    requires
        old(ts).wf(),
    ensures
        progressed(final(ts), old(ts), r),
        answers(final(ts), old(ts), r, p_new_spc(old(ts).toks(), old(ts).pos()), |v: PerspectiveDesc| v@),
        r matches Ok(v) ==> v.wf(),
{
    proof {
        ts.lemma_wf();
    }
    if let Err(e) = ts.expect_word(&['n', 'e', 'w']) {
        return Err(e);
    }
    if let Err(e) = ts.expect(TokenKind::LParen) {
        return Err(e);
    }
    let position = match parse_triple(ts) {
        Ok(v) => v,
        Err(e) => return Err(e),
    };
    if let Err(e) = ts.expect(TokenKind::Comma) {
        return Err(e);
    }
    let look = match parse_triple(ts) {
        Ok(v) => v,
        Err(e) => return Err(e),
    };
    if let Err(e) = ts.expect(TokenKind::Comma) {
        return Err(e);
    }
    let up = match parse_triple(ts) {
        Ok(v) => v,
        Err(e) => return Err(e),
    };
    if let Err(e) = ts.expect(TokenKind::Comma) {
        return Err(e);
    }
    let im_dist = match parse_number(ts) {
        Ok(v) => v,
        Err(e) => return Err(e),
    };
    if let Err(e) = ts.expect(TokenKind::RParen) {
        return Err(e);
    }
    Ok(PerspectiveDesc::New { position, look, up, im_dist })
}

/// A perspective camera, `look_at(focus, look, up, pov, h)`.
pub fn parse_look_at_spc(ts: &mut Tokens) -> (r: Result<PerspectiveDesc, SyntaxError>)
    requires
        old(ts).wf(),
    ensures
        progressed(final(ts), old(ts), r),
        answers(final(ts), old(ts), r, p_look_at_spc(old(ts).toks(), old(ts).pos()), |v: PerspectiveDesc| v@),
        r matches Ok(v) ==> v.wf(),
{
    proof {
        ts.lemma_wf();
    }
    if let Err(e) = ts.expect_word(&['l', 'o', 'o', 'k', '_', 'a', 't']) {
        return Err(e);
    }
    if let Err(e) = ts.expect(TokenKind::LParen) {
        return Err(e);
    }
    let focus = match parse_triple(ts) {
        Ok(v) => v,
        Err(e) => return Err(e),
    };
    if let Err(e) = ts.expect(TokenKind::Comma) {
        return Err(e);
    }
    let look = match parse_triple(ts) {
        Ok(v) => v,
        Err(e) => return Err(e),
    };
    if let Err(e) = ts.expect(TokenKind::Comma) {
        return Err(e);
    }
    let up = match parse_triple(ts) {
        Ok(v) => v,
        Err(e) => return Err(e),
    };
    if let Err(e) = ts.expect(TokenKind::Comma) {
        return Err(e);
    }
    let pov = match parse_ang(ts) {
        Ok(v) => v,
        Err(e) => return Err(e),
    };
    if let Err(e) = ts.expect(TokenKind::Comma) {
        return Err(e);
    }
    let h = match parse_number(ts) {
        Ok(v) => v,
        Err(e) => return Err(e),
    };
    if let Err(e) = ts.expect(TokenKind::RParen) {
        return Err(e);
    }
    Ok(PerspectiveDesc::LookAt { focus, look, up, pov, h })
}

/// A perspective camera by either constructor: `new` where the next token
/// is that identifier, else `look_at`.
pub fn parse_spc(ts: &mut Tokens) -> (r: Result<PerspectiveDesc, SyntaxError>)
    requires
        old(ts).wf(),
    ensures
        progressed(final(ts), old(ts), r),
        answers(final(ts), old(ts), r, p_spc(old(ts).toks(), old(ts).pos()), |v: PerspectiveDesc| v@),
        r matches Ok(v) ==> v.wf(),
{
    if ts.peek_word(&['n', 'e', 'w']) {
        parse_new_spc(ts)
    } else {
        parse_look_at_spc(ts)
    }
}

/// `SimplePerspectiveCamera`, then a constructor.
pub fn parse_spc_box(ts: &mut Tokens) -> (r: Result<PerspectiveDesc, SyntaxError>)
    requires
        old(ts).wf(),
    ensures
        progressed(final(ts), old(ts), r),
        answers(final(ts), old(ts), r, p_spc_box(old(ts).toks(), old(ts).pos()), |v: PerspectiveDesc| v@),
        r matches Ok(v) ==> v.wf(),
{
    proof {
        ts.lemma_wf();
    }
    if let Err(e) = ts.expect_word(&['S', 'i', 'm', 'p', 'l', 'e', 'P', 'e', 'r', 's', 'p', 'e', 'c', 't', 'i', 'v', 'e', 'C', 'a', 'm', 'e', 'r', 'a']) {
        return Err(e);
    }
    let c = match parse_spc(ts) {
        Ok(v) => v,
        Err(e) => return Err(e),
    };
    Ok(c)
}

/// A simple perspective camera, as a camera.
fn parse_simple_camera(ts: &mut Tokens) -> (r: Result<CameraDesc, SyntaxError>)
    requires
        old(ts).wf(),
    ensures
        progressed(final(ts), old(ts), r),
        answers(final(ts), old(ts), r, p_simple_camera(old(ts).toks(), old(ts).pos()), |v: CameraDesc| v@),
        r matches Ok(v) ==> v.wf(),
{
    proof {
        ts.lemma_wf();
    }
    let c = match parse_spc(ts) {
        Ok(v) => v,
        Err(e) => return Err(e),
    };
    Ok(CameraDesc::SimplePerspective(c))
}

/// A depth-of-field camera: `{ camera: SimplePerspectiveCamera ... focus: f aperture: a samples: n }`.
#[verifier::rlimit(80)]
#[verifier::spinoff_prover]
pub fn parse_dof_camera(ts: &mut Tokens) -> (r: Result<CameraDesc, SyntaxError>)
    requires
        old(ts).wf(),
    ensures
        progressed(final(ts), old(ts), r),
        answers(final(ts), old(ts), r, p_dof_camera(old(ts).toks(), old(ts).pos()), |v: CameraDesc| v@),
        r matches Ok(v) ==> v.wf(),
{
    proof {
        ts.lemma_wf();
    }
    if let Err(e) = ts.expect(TokenKind::LBrace) {
        return Err(e);
    }
    let mut camera: Option<PerspectiveDesc> = None;
    let mut focus: Option<Num> = None;
    let mut aperture: Option<Num> = None;
    let mut samples: Option<u32> = None;
    loop
        invariant
            ts.wf(),
            ts.same_input(old(ts)),
            ts.pos() > old(ts).pos(),
            ts.reached_end() == old(ts).reached_end(),
            p_dof_camera(old(ts).toks(), old(ts).pos()) == p_dof_camera_fields(
                old(ts).toks(),
                ts.pos(),
                match camera {
                    Some(x) => Some(x@),
                    None => None,
                },
                match focus {
                    Some(x) => Some(x@),
                    None => None,
                },
                match aperture {
                    Some(x) => Some(x@),
                    None => None,
                },
                match samples {
                    Some(x) => Some(x),
                    None => None,
                },
            ),
            camera matches Some(x) ==> x.wf(),
            focus matches Some(x) ==> x.wf(),
            aperture matches Some(x) ==> x.wf(),
        decreases ts.toks().len() - ts.pos(),
    {
        proof {
            ts.lemma_wf();
        }
        if ts.accept(TokenKind::RBrace) {
            return match (camera, focus, aperture, samples) {
                (Some(camera), Some(focus), Some(aperture), Some(samples)) => Ok(CameraDesc::DepthOfField { camera, focus, aperture, samples }),
                _ => Err(SyntaxError { etype: SyntaxErrorType::Missing, location: ts.location() }),
            };
        }
        let name = match ts.expect(TokenKind::Identifier) {
            Ok(Token::Identifier(n)) => n,
            Ok(_) => {
                proof {
                    assert(false);
                }
                return Err(SyntaxError { etype: SyntaxErrorType::Missing, location: ts.location() });
            },
            Err(e) => return Err(e),
        };
        if is_word(&name, &['c', 'a', 'm', 'e', 'r', 'a']) {
            if let Err(e) = ts.expect(TokenKind::Colon) {
                return Err(e);
            }
            match parse_spc_box(ts) {
                Ok(v) => camera = Some(v),
                Err(e) => return Err(e),
            }
        } else if is_word(&name, &['f', 'o', 'c', 'u', 's']) {
            if let Err(e) = ts.expect(TokenKind::Colon) {
                return Err(e);
            }
            match parse_number(ts) {
                Ok(v) => focus = Some(v),
                Err(e) => return Err(e),
            }
        } else if is_word(&name, &['a', 'p', 'e', 'r', 't', 'u', 'r', 'e']) {
            if let Err(e) = ts.expect(TokenKind::Colon) {
                return Err(e);
            }
            match parse_number(ts) {
                Ok(v) => aperture = Some(v),
                Err(e) => return Err(e),
            }
        } else if is_word(&name, &['s', 'a', 'm', 'p', 'l', 'e', 's']) {
            if let Err(e) = ts.expect(TokenKind::Colon) {
                return Err(e);
            }
            match parse_count(ts) {
                Ok(v) => samples = Some(v),
                Err(e) => return Err(e),
            }
        } else {
            return Err(SyntaxError { etype: SyntaxErrorType::Undefined(name), location: ts.location() });
        }
        proof {
            ts.lemma_wf();
        }
    }
}

/// A camera, by its class name.
pub fn parse_box_camera(ts: &mut Tokens) -> (r: Result<CameraDesc, SyntaxError>)
    requires
        old(ts).wf(),
    ensures
        progressed(final(ts), old(ts), r),
        answers(final(ts), old(ts), r, p_box_camera(old(ts).toks(), old(ts).pos()), |v: CameraDesc| v@),
        r matches Ok(v) ==> v.wf(),
{
    let class = match ts.expect(TokenKind::Identifier) {
        Ok(Token::Identifier(c)) => c,
        Ok(_) => {
            proof {
                assert(false);
            }
            return Err(SyntaxError { etype: SyntaxErrorType::Missing, location: ts.location() });
        },
        Err(e) => return Err(e),
    };
    if is_word(&class, &['S', 'i', 'm', 'p', 'l', 'e', 'P', 'e', 'r', 's', 'p', 'e', 'c', 't', 'i', 'v', 'e', 'C', 'a', 'm', 'e', 'r', 'a']) {
        parse_simple_camera(ts)
    } else if is_word(&class, &['D', 'e', 'p', 't', 'h', 'O', 'f', 'F', 'i', 'e', 'l', 'd', 'C', 'a', 'm', 'e', 'r', 'a']) {
        parse_dof_camera(ts)
    } else {
        Err(SyntaxError { etype: SyntaxErrorType::NoClass(class), location: ts.location() })
    }
}

/// A solid color background: `{ color: rgb(r, g, b) }`.
pub fn parse_solid_color_background(ts: &mut Tokens) -> (r: Result<BackgroundDesc, SyntaxError>)
    requires
        old(ts).wf(),
    ensures
        progressed(final(ts), old(ts), r),
        answers(final(ts), old(ts), r, p_solid_color_background(old(ts).toks(), old(ts).pos()), |v: BackgroundDesc| v@),
        r matches Ok(v) ==> v.wf(),
{
    proof {
        ts.lemma_wf();
    }
    if let Err(e) = ts.expect(TokenKind::LBrace) {
        return Err(e);
    }
    let mut color: Option<Rgb> = None;
    loop
        invariant
            ts.wf(),
            ts.same_input(old(ts)),
            ts.pos() > old(ts).pos(),
            ts.reached_end() == old(ts).reached_end(),
            p_solid_color_background(old(ts).toks(), old(ts).pos()) == p_solid_color_background_fields(
                old(ts).toks(),
                ts.pos(),
                match color {
                    Some(x) => Some(x@),
                    None => None,
                },
            ),
            color matches Some(x) ==> x.wf(),
        decreases ts.toks().len() - ts.pos(),
    {
        proof {
            ts.lemma_wf();
        }
        if ts.accept(TokenKind::RBrace) {
            return match (color,) {
                (Some(color),) => Ok(BackgroundDesc::SolidColor { color }),
                _ => Err(SyntaxError { etype: SyntaxErrorType::Missing, location: ts.location() }),
            };
        }
        let name = match ts.expect(TokenKind::Identifier) {
            Ok(Token::Identifier(n)) => n,
            Ok(_) => {
                proof {
                    assert(false);
                }
                return Err(SyntaxError { etype: SyntaxErrorType::Missing, location: ts.location() });
            },
            Err(e) => return Err(e),
        };
        if is_word(&name, &['c', 'o', 'l', 'o', 'r']) {
            if let Err(e) = ts.expect(TokenKind::Colon) {
                return Err(e);
            }
            match parse_color(ts) {
                Ok(v) => color = Some(v),
                Err(e) => return Err(e),
            }
        } else {
            return Err(SyntaxError { etype: SyntaxErrorType::Undefined(name), location: ts.location() });
        }
        proof {
            ts.lemma_wf();
        }
    }
}

/// A background, by its class name.
pub fn parse_box_background(ts: &mut Tokens) -> (r: Result<BackgroundDesc, SyntaxError>)
    requires
        old(ts).wf(),
    ensures
        progressed(final(ts), old(ts), r),
        answers(final(ts), old(ts), r, p_box_background(old(ts).toks(), old(ts).pos()), |v: BackgroundDesc| v@),
        r matches Ok(v) ==> v.wf(),
{
    let class = match ts.expect(TokenKind::Identifier) {
        Ok(Token::Identifier(c)) => c,
        Ok(_) => {
            proof {
                assert(false);
            }
            return Err(SyntaxError { etype: SyntaxErrorType::Missing, location: ts.location() });
        },
        Err(e) => return Err(e),
    };
    if is_word(&class, &['S', 'o', 'l', 'i', 'd', 'C', 'o', 'l', 'o', 'r', 'B', 'a', 'c', 'k', 'g', 'r', 'o', 'u', 'n', 'd']) {
        parse_solid_color_background(ts)
    } else {
        Err(SyntaxError { etype: SyntaxErrorType::NoClass(class), location: ts.location() })
    }
}

/// Render options: `{ width: w height: h antialias: n }`, each a count.
pub fn parse_options(ts: &mut Tokens) -> (r: Result<Options, SyntaxError>)
    requires
        old(ts).wf(),
    ensures
        progressed(final(ts), old(ts), r),
        answers(final(ts), old(ts), r, p_options(old(ts).toks(), old(ts).pos()), |v: Options| v),
{
    proof {
        ts.lemma_wf();
    }
    if let Err(e) = ts.expect(TokenKind::LBrace) {
        return Err(e);
    }
    let mut width: Option<u32> = None;
    let mut height: Option<u32> = None;
    let mut antialias: Option<u32> = None;
    loop
        invariant
            ts.wf(),
            ts.same_input(old(ts)),
            ts.pos() > old(ts).pos(),
            ts.reached_end() == old(ts).reached_end(),
            p_options(old(ts).toks(), old(ts).pos()) == p_options_fields(
                old(ts).toks(),
                ts.pos(),
                match width {
                    Some(x) => Some(x),
                    None => None,
                },
                match height {
                    Some(x) => Some(x),
                    None => None,
                },
                match antialias {
                    Some(x) => Some(x),
                    None => None,
                },
            ),
        decreases ts.toks().len() - ts.pos(),
    {
        proof {
            ts.lemma_wf();
        }
        if ts.accept(TokenKind::RBrace) {
            return match (width, height, antialias) {
                (Some(width), Some(height), Some(antialias)) => Ok(Options { width, height, antialias }),
                _ => Err(SyntaxError { etype: SyntaxErrorType::Missing, location: ts.location() }),
            };
        }
        let name = match ts.expect(TokenKind::Identifier) {
            Ok(Token::Identifier(n)) => n,
            Ok(_) => {
                proof {
                    assert(false);
                }
                return Err(SyntaxError { etype: SyntaxErrorType::Missing, location: ts.location() });
            },
            Err(e) => return Err(e),
        };
        if is_word(&name, &['w', 'i', 'd', 't', 'h']) {
            if let Err(e) = ts.expect(TokenKind::Colon) {
                return Err(e);
            }
            match parse_count(ts) {
                Ok(v) => width = Some(v),
                Err(e) => return Err(e),
            }
        } else if is_word(&name, &['h', 'e', 'i', 'g', 'h', 't']) {
            if let Err(e) = ts.expect(TokenKind::Colon) {
                return Err(e);
            }
            match parse_count(ts) {
                Ok(v) => height = Some(v),
                Err(e) => return Err(e),
            }
        } else if is_word(&name, &['a', 'n', 't', 'i', 'a', 'l', 'i', 'a', 's']) {
            if let Err(e) = ts.expect(TokenKind::Colon) {
                return Err(e);
            }
            match parse_count(ts) {
                Ok(v) => antialias = Some(v),
                Err(e) => return Err(e),
            }
        } else {
            return Err(SyntaxError { etype: SyntaxErrorType::Undefined(name), location: ts.location() });
        }
        proof {
            ts.lemma_wf();
        }
    }
}

/// A list of objects.
pub fn parse_objects(ts: &mut Tokens) -> (r: Result<Vec<ObjectDesc>, SyntaxError>)
    requires
        old(ts).wf(),
    ensures
        progressed(final(ts), old(ts), r),
        answers(final(ts), old(ts), r, p_objects(old(ts).toks(), old(ts).pos()), |v: Vec<ObjectDesc>| object_views(v@)),
        r matches Ok(v) ==> (forall|k: int| 0 <= k < v@.len() ==> (#[trigger] v@[k]).wf()),
{
    proof {
        ts.lemma_wf();
    }
    if let Err(e) = ts.expect(TokenKind::LBracket) {
        return Err(e);
    }
    let mut result: Vec<ObjectDesc> = Vec::new();
    assert(object_views(result@) =~= seq![]);
    loop
        invariant
            ts.wf(),
            ts.same_input(old(ts)),
            ts.pos() > old(ts).pos(),
            ts.reached_end() == old(ts).reached_end(),
            p_objects(old(ts).toks(), old(ts).pos()) == p_objects_items(old(ts).toks(), ts.pos(), object_views(result@)),
            forall|k: int| 0 <= k < result@.len() ==> (#[trigger] result@[k]).wf(),
        decreases ts.toks().len() - ts.pos(),
    {
        proof {
            ts.lemma_wf();
        }
        if ts.accept(TokenKind::RBracket) {
            return Ok(result);
        }
        match parse_object(ts) {
            Ok(v) => {
                let ghost before = result@;
                result.push(v);
                assert(object_views(result@) =~= object_views(before).push(v@));
            },
            Err(e) => return Err(e),
        }
        proof {
            ts.lemma_wf();
        }
    }
}

/// A list of lights.
pub fn parse_lights(ts: &mut Tokens) -> (r: Result<Vec<LightDesc>, SyntaxError>)
    requires
        old(ts).wf(),
    ensures
        progressed(final(ts), old(ts), r),
        answers(final(ts), old(ts), r, p_lights(old(ts).toks(), old(ts).pos()), |v: Vec<LightDesc>| light_views(v@)),
        r matches Ok(v) ==> (forall|k: int| 0 <= k < v@.len() ==> (#[trigger] v@[k]).wf()),
{
    proof {
        ts.lemma_wf();
    }
    if let Err(e) = ts.expect(TokenKind::LBracket) {
        return Err(e);
    }
    let mut result: Vec<LightDesc> = Vec::new();
    assert(light_views(result@) =~= seq![]);
    loop
        invariant
            ts.wf(),
            ts.same_input(old(ts)),
            ts.pos() > old(ts).pos(),
            ts.reached_end() == old(ts).reached_end(),
            p_lights(old(ts).toks(), old(ts).pos()) == p_lights_items(old(ts).toks(), ts.pos(), light_views(result@)),
            forall|k: int| 0 <= k < result@.len() ==> (#[trigger] result@[k]).wf(),
        decreases ts.toks().len() - ts.pos(),
    {
        proof {
            ts.lemma_wf();
        }
        if ts.accept(TokenKind::RBracket) {
            return Ok(result);
        }
        match parse_light(ts) {
            Ok(v) => {
                let ghost before = result@;
                result.push(v);
                assert(light_views(result@) =~= light_views(before).push(v@));
            },
            Err(e) => return Err(e),
        }
        proof {
            ts.lemma_wf();
        }
    }
}

/// A scene: `{ objects: [...] lights: [...] camera: ... background: ... options: {...} }`.
#[verifier::rlimit(80)]
#[verifier::spinoff_prover]
pub fn parse_scene(ts: &mut Tokens) -> (r: Result<SceneDesc, SyntaxError>)
    requires
        old(ts).wf(),
    ensures
        progressed(final(ts), old(ts), r),
        answers(final(ts), old(ts), r, p_scene(old(ts).toks(), old(ts).pos()), |v: SceneDesc| v@),
        r matches Ok(v) ==> v.wf(),
{
    proof {
        ts.lemma_wf();
    }
    if let Err(e) = ts.expect(TokenKind::LBrace) {
        return Err(e);
    }
    let mut objects: Option<Vec<ObjectDesc>> = None;
    let mut lights: Option<Vec<LightDesc>> = None;
    let mut camera: Option<CameraDesc> = None;
    let mut background: Option<BackgroundDesc> = None;
    let mut options: Option<Options> = None;
    loop
        invariant
            ts.wf(),
            ts.same_input(old(ts)),
            ts.pos() > old(ts).pos(),
            ts.reached_end() == old(ts).reached_end(),
            p_scene(old(ts).toks(), old(ts).pos()) == p_scene_fields(
                old(ts).toks(),
                ts.pos(),
                match objects {
                    Some(x) => Some(object_views(x@)),
                    None => None,
                },
                match lights {
                    Some(x) => Some(light_views(x@)),
                    None => None,
                },
                match camera {
                    Some(x) => Some(x@),
                    None => None,
                },
                match background {
                    Some(x) => Some(x@),
                    None => None,
                },
                match options {
                    Some(x) => Some(x),
                    None => None,
                },
            ),
            objects matches Some(x) ==> (forall|k: int| 0 <= k < x@.len() ==> (#[trigger] x@[k]).wf()),
            lights matches Some(x) ==> (forall|k: int| 0 <= k < x@.len() ==> (#[trigger] x@[k]).wf()),
            camera matches Some(x) ==> x.wf(),
            background matches Some(x) ==> x.wf(),
        decreases ts.toks().len() - ts.pos(),
    {
        proof {
            ts.lemma_wf();
        }
        if ts.accept(TokenKind::RBrace) {
            return match (objects, lights, camera, background, options) {
                (Some(objects), Some(lights), Some(camera), Some(background), Some(options)) => Ok(SceneDesc { objects, lights, camera, background, options }),
                _ => Err(SyntaxError { etype: SyntaxErrorType::Missing, location: ts.location() }),
            };
        }
        let name = match ts.expect(TokenKind::Identifier) {
            Ok(Token::Identifier(n)) => n,
            Ok(_) => {
                proof {
                    assert(false);
                }
                return Err(SyntaxError { etype: SyntaxErrorType::Missing, location: ts.location() });
            },
            Err(e) => return Err(e),
        };
        if is_word(&name, &['o', 'b', 'j', 'e', 'c', 't', 's']) {
            if let Err(e) = ts.expect(TokenKind::Colon) {
                return Err(e);
            }
            match parse_objects(ts) {
                Ok(v) => objects = Some(v),
                Err(e) => return Err(e),
            }
        } else if is_word(&name, &['l', 'i', 'g', 'h', 't', 's']) {
            if let Err(e) = ts.expect(TokenKind::Colon) {
                return Err(e);
            }
            match parse_lights(ts) {
                Ok(v) => lights = Some(v),
                Err(e) => return Err(e),
            }
        } else if is_word(&name, &['c', 'a', 'm', 'e', 'r', 'a']) {
            if let Err(e) = ts.expect(TokenKind::Colon) {
                return Err(e);
            }
            match parse_box_camera(ts) {
                Ok(v) => camera = Some(v),
                Err(e) => return Err(e),
            }
        } else if is_word(&name, &['b', 'a', 'c', 'k', 'g', 'r', 'o', 'u', 'n', 'd']) {
            if let Err(e) = ts.expect(TokenKind::Colon) {
                return Err(e);
            }
            match parse_box_background(ts) {
                Ok(v) => background = Some(v),
                Err(e) => return Err(e),
            }
        } else if is_word(&name, &['o', 'p', 't', 'i', 'o', 'n', 's']) {
            if let Err(e) = ts.expect(TokenKind::Colon) {
                return Err(e);
            }
            match parse_options(ts) {
                Ok(v) => options = Some(v),
                Err(e) => return Err(e),
            }
        } else {
            return Err(SyntaxError { etype: SyntaxErrorType::Undefined(name), location: ts.location() });
        }
        proof {
            ts.lemma_wf();
        }
    }
}

} // verus!
