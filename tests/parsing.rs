use raytrace::error::{Expected, SyntaxErrorType};
use raytrace::lexer::tokenize;
use raytrace::location::Location;
use raytrace::parser::{count_value, parse_ang, parse_color, parse_count, parse_objects, parse_triple};
use raytrace::scene::{
    AngleUnit, BackgroundDesc, CameraDesc, LightModelDesc, MaterialDesc, Num, Options, PerspectiveDesc, ShapeDesc,
};
use raytrace::serialize::deserialize;
use raytrace::token::TokenKind;
use raytrace::tokens::Tokens;

fn chars(s: &str) -> Vec<char> {
    s.chars().collect()
}

fn text(n: &Num) -> String {
    n.text.iter().collect()
}

fn tokens(s: &str) -> Tokens {
    let lexed = tokenize(chars(s));
    assert!(lexed.error.is_none());
    Tokens::new(lexed.tokens, lexed.locations, lexed.end)
}

const SCENE: &str = "
# one sphere in front of the camera
{
    objects: [
        {
            bounds: Sphere { center: (0, 0, -2) radius: 1 }
            material: PhongMaterial {
                diffuse: rgb(0.8, 0.2, 0.2)
                specular: rgb(0, 0, 0)
                exponent: 10
                ambient: rgb(0, 0, 0)
            }
        }
        {
            bounds: Plane { point: (0, -1, 0) normal: (0, 1, 0) }
            material: FresnelMaterial {
                diffuse: rgb(0.5, 0.5, 0.5) specular: rgb(1, 1, 1)
                exponent: 20 ambient: rgb(0.1, 0.1, 0.1) ior: 1.5
            }
        }
    ]
    lights: [
        { model: DirectionalLight { direction: (0, 0, 1) } color: rgb(1, 1, 1) }
        { model: PointLight { location: (1, 2, 3) } color: rgb(0.5, 0.5, 0.5) }
    ]
    camera: SimplePerspectiveCamera new((0, 0, 0), (0, 0, -1), (0, 1, 0), 1)
    background: SolidColorBackground { color: rgb(0.1, 0.2, 0.3) }
    options: { width: 64 height: 48 antialias: 4 }
}
";

#[test]
fn whole_scene() {
    let scene = deserialize(&SCENE.to_string()).expect("scene");
    assert_eq!(scene.objects.len(), 2);
    match &scene.objects[0].bounds {
        ShapeDesc::Sphere { center, radius } => {
            assert_eq!(text(&center.z), "-2");
            assert_eq!(text(radius), "1");
        }
        other => panic!("unexpected {:?}", other),
    }
    match &scene.objects[0].material {
        MaterialDesc::Phong { diffuse, exponent, .. } => {
            assert_eq!(text(&diffuse.r), "0.8");
            assert_eq!(text(exponent), "10");
        }
        other => panic!("unexpected {:?}", other),
    }
    assert!(matches!(scene.objects[1].bounds, ShapeDesc::Plane { .. }));
    match &scene.objects[1].material {
        MaterialDesc::Fresnel { ior, .. } => assert_eq!(text(ior), "1.5"),
        other => panic!("unexpected {:?}", other),
    }
    assert_eq!(scene.lights.len(), 2);
    assert!(matches!(scene.lights[0].model, LightModelDesc::Directional { .. }));
    match &scene.lights[1].model {
        LightModelDesc::Point { location } => assert_eq!(text(&location.y), "2"),
        other => panic!("unexpected {:?}", other),
    }
    match &scene.camera {
        CameraDesc::SimplePerspective(PerspectiveDesc::New { look, im_dist, .. }) => {
            assert_eq!(text(&look.z), "-1");
            assert_eq!(text(im_dist), "1");
        }
        other => panic!("unexpected {:?}", other),
    }
    match &scene.background {
        BackgroundDesc::SolidColor { color } => assert_eq!(text(&color.b), "0.3"),
    }
    assert_eq!(scene.options, Options { width: 64, height: 48, antialias: 4 });
}

#[test]
fn other_cameras_and_materials() {
    let s = "{
        objects: [
            { bounds: Sphere { radius: 2 center: (1, 1, 1) }
              material: TransparentMaterial { specular: rgb(1, 1, 1) exponent: 50 ior: 1.33 } }
            { material: IndirectPhongMaterial { diffuse: rgb(1, 1, 1) specular: rgb(0, 0, 0)
                exponent: 1 ambient: rgb(0, 0, 0) samples: 16 }
              bounds: Sphere { center: (0, 0, 0) radius: 1 } }
        ]
        lights: []
        camera: DepthOfFieldCamera {
            camera: SimplePerspectiveCamera look_at((0, 0, -5), (0, 0, -1), (0, 1, 0), 60 deg, 1)
            focus: 5 aperture: 0.1 samples: 8
        }
        background: SolidColorBackground { color: rgb(0, 0, 0) }
        options: { width: 1 height: 1 antialias: 1 }
    }";
    let scene = deserialize(&s.to_string()).expect("scene");
    match &scene.objects[0].material {
        MaterialDesc::Transparent { ior, .. } => assert_eq!(text(ior), "1.33"),
        other => panic!("unexpected {:?}", other),
    }
    match &scene.objects[1].material {
        MaterialDesc::IndirectPhong { samples, .. } => assert_eq!(*samples, 16),
        other => panic!("unexpected {:?}", other),
    }
    match &scene.camera {
        CameraDesc::DepthOfField { camera: PerspectiveDesc::LookAt { pov, .. }, samples, aperture, .. } => {
            assert_eq!(text(&pov.value), "60");
            assert_eq!(pov.unit, AngleUnit::Deg);
            assert_eq!(*samples, 8);
            assert_eq!(text(aperture), "0.1");
        }
        other => panic!("unexpected {:?}", other),
    }
    assert!(scene.lights.is_empty());
}

#[test]
fn last_field_value_counts() {
    let mut ts = tokens("[ { bounds: Sphere { center: (0, 0, 0) radius: 1 radius: 3 } material: PhongMaterial { diffuse: rgb(0, 0, 0) specular: rgb(0, 0, 0) exponent: 1 ambient: rgb(0, 0, 0) } } ]");
    let objects = parse_objects(&mut ts).expect("objects");
    match &objects[0].bounds {
        ShapeDesc::Sphere { radius, .. } => assert_eq!(text(radius), "3"),
        other => panic!("unexpected {:?}", other),
    }
}

#[test]
fn triple_color_angle() {
    let mut ts = tokens("(1, 2, 3) rgb(0.5, 0.25, 1) 90 rad 45 deg 10 grad");
    let t = parse_triple(&mut ts).expect("triple");
    assert_eq!((text(&t.x), text(&t.y), text(&t.z)), ("1".to_string(), "2".to_string(), "3".to_string()));
    let c = parse_color(&mut ts).expect("color");
    assert_eq!(text(&c.g), "0.25");
    let a = parse_ang(&mut ts).expect("angle");
    assert_eq!((text(&a.value), a.unit), ("90".to_string(), AngleUnit::Rad));
    let a = parse_ang(&mut ts).expect("angle");
    assert_eq!(a.unit, AngleUnit::Deg);
    match parse_ang(&mut ts).unwrap_err().etype {
        SyntaxErrorType::NoClass(u) => assert_eq!(u, chars("grad")),
        other => panic!("unexpected {:?}", other),
    }
}

#[test]
fn counts() {
    assert_eq!(count_value(&chars("0")), Some(0));
    assert_eq!(count_value(&chars("640")), Some(640));
    assert_eq!(count_value(&chars("4294967295")), Some(u32::MAX));
    assert_eq!(count_value(&chars("4294967296")), None);
    assert_eq!(count_value(&chars("99999999999")), None);
    assert_eq!(count_value(&chars("1.5")), None);
    assert_eq!(count_value(&chars("-1")), None);
    assert_eq!(count_value(&chars("")), None);
    let mut ts = tokens("12 1e3");
    assert_eq!(parse_count(&mut ts).unwrap(), 12);
    match parse_count(&mut ts).unwrap_err().etype {
        SyntaxErrorType::InvalidNumber { num } => assert_eq!(num, chars("1e3")),
        other => panic!("unexpected {:?}", other),
    }
}

#[test]
fn expect_error_names_what_was_found() {
    let mut ts = tokens("(1, 2 3)");
    let e = parse_triple(&mut ts).unwrap_err();
    match e.etype {
        SyntaxErrorType::Expect { expected: Expected::Kind(k), found: Some(f) } => {
            assert_eq!(k, TokenKind::Comma);
            assert_eq!(f.kind(), TokenKind::Number);
        }
        other => panic!("unexpected {:?}", other),
    }
    let mut ts = tokens("(1, 2,");
    match parse_triple(&mut ts).unwrap_err().etype {
        SyntaxErrorType::Expect { expected: Expected::Kind(TokenKind::Number), found: None } => {}
        other => panic!("unexpected {:?}", other),
    }
    let mut ts = tokens("hsv(1, 2, 3)");
    match parse_color(&mut ts).unwrap_err().etype {
        SyntaxErrorType::Expect { expected: Expected::Word(w), .. } => assert_eq!(w, chars("rgb")),
        other => panic!("unexpected {:?}", other),
    }
}

#[test]
fn undefined_field() {
    let s = SCENE.replace("radius: 1", "radius: 1 colour: 3");
    match deserialize(&s).unwrap_err().etype {
        SyntaxErrorType::Undefined(name) => assert_eq!(name, chars("colour")),
        other => panic!("unexpected {:?}", other),
    }
}

#[test]
fn missing_field() {
    let s = SCENE.replace("radius: 1 ", "");
    let e = deserialize(&s).unwrap_err();
    assert!(matches!(e.etype, SyntaxErrorType::Missing));
    // reported just after the closing brace of the sphere
    assert_eq!(e.location.row, 6);
}

#[test]
fn unknown_class() {
    let s = SCENE.replace("Sphere {", "Cube {");
    match deserialize(&s).unwrap_err().etype {
        SyntaxErrorType::NoClass(name) => assert_eq!(name, chars("Cube")),
        other => panic!("unexpected {:?}", other),
    }
}

#[test]
fn lexing_error_reached_by_the_parser() {
    let s = SCENE.replace("radius: 1", "radius: 1 @");
    let e = deserialize(&s).unwrap_err();
    assert!(matches!(e.etype, SyntaxErrorType::InvalidToken));
    assert_eq!(e.location, Location { row: 6, col: 59 });
}

#[test]
fn lexing_error_after_the_scene_is_ignored() {
    let s = format!("{} @", SCENE);
    assert!(deserialize(&s).is_ok());
}

#[test]
fn parse_error_before_lexing_error() {
    let s = SCENE.replace("radius: 1", "radius: 1 colour: 3 @");
    assert!(matches!(deserialize(&s).unwrap_err().etype, SyntaxErrorType::Undefined(_)));
}

#[test]
fn empty_text_is_an_error_at_the_end() {
    let e = deserialize(&"  ".to_string()).unwrap_err();
    match e.etype {
        SyntaxErrorType::Expect { expected: Expected::Kind(TokenKind::LBrace), found: None } => {}
        other => panic!("unexpected {:?}", other),
    }
    assert_eq!(e.location, Location { row: 1, col: 2 });
}

#[test]
fn camera_constructor_is_chosen_by_its_name() {
    let s = SCENE.replace(
        "SimplePerspectiveCamera new((0, 0, 0), (0, 0, -1), (0, 1, 0), 1)",
        "SimplePerspectiveCamera look_at((0, 0, -2), (0, 0, -1), (0, 1, 0), 1.5 rad, 2)",
    );
    match deserialize(&s).expect("scene").camera {
        CameraDesc::SimplePerspective(PerspectiveDesc::LookAt { pov, h, .. }) => {
            assert_eq!(pov.unit, AngleUnit::Rad);
            assert_eq!(text(&h), "2");
        }
        other => panic!("unexpected {:?}", other),
    }
    let s = SCENE.replace("new((0, 0, 0)", "new((0, 0)");
    match deserialize(&s).unwrap_err().etype {
        SyntaxErrorType::Expect { expected: Expected::Kind(TokenKind::Comma), found: Some(f) } => {
            assert_eq!(f.kind(), TokenKind::RParen)
        }
        other => panic!("unexpected {:?}", other),
    }
}

#[test]
fn options_need_integer_counts() {
    let s = SCENE.replace("width: 64", "width: 64.5");
    match deserialize(&s).unwrap_err().etype {
        SyntaxErrorType::InvalidNumber { num } => assert_eq!(num, chars("64.5")),
        other => panic!("unexpected {:?}", other),
    }
}

#[test]
fn star_pairs_inside_block_comment() {
    let s = format!("/* a * b */ {}", SCENE);
    assert!(deserialize(&s).is_ok());
    // `**/` does not end the comment, so the scene is commented out
    let s = format!("/* a **/ {}", SCENE);
    assert!(matches!(deserialize(&s).unwrap_err().etype, SyntaxErrorType::InvalidToken));
}
