//! A scene as read from its description: every number is kept as the
//! literal it was written as, counts are read as integers.

use vstd::prelude::*;
use crate::number::float_literal;

verus! {

/// A number, as the floating-point literal that it was written as.
#[derive(Clone, Debug)]
pub struct Num {
    pub text: Vec<char>,
}

impl Num {
    pub open spec fn wf(&self) -> bool {
        float_literal(self.text@)
    }
}

/// Three numbers: a point or a vector.
#[derive(Clone, Debug)]
pub struct Triple {
    pub x: Num,
    pub y: Num,
    pub z: Num,
}

impl Triple {
    pub open spec fn wf(&self) -> bool {
        self.x.wf() && self.y.wf() && self.z.wf()
    }
}

/// A color written as `rgb(r, g, b)`.
#[derive(Clone, Debug)]
pub struct Rgb {
    pub r: Num,
    pub g: Num,
    pub b: Num,
}

impl Rgb {
    pub open spec fn wf(&self) -> bool {
        self.r.wf() && self.g.wf() && self.b.wf()
    }
}

/// The unit an angle is written in.
#[derive(Copy, Clone, Debug, PartialEq, Eq, Structural)]
pub enum AngleUnit {
    Deg,
    Rad,
}

/// An angle: a number and its unit.
#[derive(Clone, Debug)]
pub struct Angle {
    pub value: Num,
    pub unit: AngleUnit,
}

/// The geometry of an object.
#[derive(Clone, Debug)]
pub enum ShapeDesc {
    Sphere { center: Triple, radius: Num },
    Plane { point: Triple, normal: Triple },
}

impl ShapeDesc {
    pub open spec fn wf(&self) -> bool {
        match self {
            ShapeDesc::Sphere { center, radius } => center.wf() && radius.wf(),
            ShapeDesc::Plane { point, normal } => point.wf() && normal.wf(),
        }
    }
}

/// The material of an object.
#[derive(Clone, Debug)]
pub enum MaterialDesc {
    Phong { diffuse: Rgb, specular: Rgb, exponent: Num, ambient: Rgb },
    Fresnel { diffuse: Rgb, specular: Rgb, exponent: Num, ambient: Rgb, ior: Num },
    Transparent { specular: Rgb, exponent: Num, ior: Num },
    IndirectPhong { diffuse: Rgb, specular: Rgb, exponent: Num, ambient: Rgb, samples: u32 },
}

impl MaterialDesc {
    pub open spec fn wf(&self) -> bool {
        match self {
            MaterialDesc::Phong { diffuse, specular, exponent, ambient } =>
                diffuse.wf() && specular.wf() && exponent.wf() && ambient.wf(),
            MaterialDesc::Fresnel { diffuse, specular, exponent, ambient, ior } =>
                diffuse.wf() && specular.wf() && exponent.wf() && ambient.wf() && ior.wf(),
            MaterialDesc::Transparent { specular, exponent, ior } =>
                specular.wf() && exponent.wf() && ior.wf(),
            MaterialDesc::IndirectPhong { diffuse, specular, exponent, ambient, samples } =>
                diffuse.wf() && specular.wf() && exponent.wf() && ambient.wf(),
        }
    }
}

/// An object: its bounds and its material.
#[derive(Clone, Debug)]
pub struct ObjectDesc {
    pub bounds: ShapeDesc,
    pub material: MaterialDesc,
}

impl ObjectDesc {
    pub open spec fn wf(&self) -> bool {
        self.bounds.wf() && self.material.wf()
    }
}

/// Where light comes from.
#[derive(Clone, Debug)]
pub enum LightModelDesc {
    Point { location: Triple },
    Directional { direction: Triple },
}

impl LightModelDesc {
    pub open spec fn wf(&self) -> bool {
        match self {
            LightModelDesc::Point { location } => location.wf(),
            LightModelDesc::Directional { direction } => direction.wf(),
        }
    }
}

/// A light: its model and its color.
#[derive(Clone, Debug)]
pub struct LightDesc {
    pub model: LightModelDesc,
    pub color: Rgb,
}

impl LightDesc {
    pub open spec fn wf(&self) -> bool {
        self.model.wf() && self.color.wf()
    }
}

/// A perspective camera, by one of its two constructors.
#[derive(Clone, Debug)]
pub enum PerspectiveDesc {
    /// From its position, look and up vectors and image-plane distance.
    New { position: Triple, look: Triple, up: Triple, im_dist: Num },
    /// From a focus point, look and up vectors, field of view and half height.
    LookAt { focus: Triple, look: Triple, up: Triple, pov: Angle, h: Num },
}

impl PerspectiveDesc {
    pub open spec fn wf(&self) -> bool {
        match self {
            PerspectiveDesc::New { position, look, up, im_dist } =>
                position.wf() && look.wf() && up.wf() && im_dist.wf(),
            PerspectiveDesc::LookAt { focus, look, up, pov, h } =>
                focus.wf() && look.wf() && up.wf() && pov.value.wf() && h.wf(),
        }
    }
}

/// A camera.
#[derive(Clone, Debug)]
pub enum CameraDesc {
    SimplePerspective(PerspectiveDesc),
    DepthOfField { camera: PerspectiveDesc, focus: Num, aperture: Num, samples: u32 },
}

impl CameraDesc {
    pub open spec fn wf(&self) -> bool {
        match self {
            CameraDesc::SimplePerspective(c) => c.wf(),
            CameraDesc::DepthOfField { camera, focus, aperture, samples } =>
                camera.wf() && focus.wf() && aperture.wf(),
        }
    }
}

/// What a ray that hits nothing sees.
#[derive(Clone, Debug)]
pub enum BackgroundDesc {
    SolidColor { color: Rgb },
}

impl BackgroundDesc {
    pub open spec fn wf(&self) -> bool {
        match self {
            BackgroundDesc::SolidColor { color } => color.wf(),
        }
    }
}

/// Render options.
#[derive(Copy, Clone, Debug, PartialEq, Eq, Structural)]
pub struct Options {
    /// Width of the rendered image.
    pub width: u32,
    /// Height of the rendered image.
    pub height: u32,
    /// Number of anti-aliasing samples.
    pub antialias: u32,
}

/// A scene with objects, lights, a camera, a background and render options.
#[derive(Clone, Debug)]
pub struct SceneDesc {
    pub objects: Vec<ObjectDesc>,
    pub lights: Vec<LightDesc>,
    pub camera: CameraDesc,
    pub background: BackgroundDesc,
    pub options: Options,
}

impl SceneDesc {
    pub open spec fn wf(&self) -> bool {
        &&& forall|k: int| 0 <= k < self.objects@.len() ==> (#[trigger] self.objects@[k]).wf()
        &&& forall|k: int| 0 <= k < self.lights@.len() ==> (#[trigger] self.lights@[k]).wf()
        &&& self.camera.wf()
        &&& self.background.wf()
    }
}

/// Three literals: the view of a point, a vector or a color.
pub type TripleView = (Seq<char>, Seq<char>, Seq<char>);

pub enum ShapeView {
    Sphere(TripleView, Seq<char>),
    Plane(TripleView, TripleView),
}

pub enum MaterialView {
    Phong(TripleView, TripleView, Seq<char>, TripleView),
    Fresnel(TripleView, TripleView, Seq<char>, TripleView, Seq<char>),
    Transparent(TripleView, Seq<char>, Seq<char>),
    IndirectPhong(TripleView, TripleView, Seq<char>, TripleView, u32),
}

pub enum LightModelView {
    Point(TripleView),
    Directional(TripleView),
}

pub enum PerspectiveView {
    New(TripleView, TripleView, TripleView, Seq<char>),
    LookAt(TripleView, TripleView, TripleView, (Seq<char>, AngleUnit), Seq<char>),
}

pub enum CameraView {
    SimplePerspective(PerspectiveView),
    DepthOfField(PerspectiveView, Seq<char>, Seq<char>, u32),
}

pub enum BackgroundView {
    SolidColor(TripleView),
}

pub struct SceneView {
    pub objects: Seq<(ShapeView, MaterialView)>,
    pub lights: Seq<(LightModelView, TripleView)>,
    pub camera: CameraView,
    pub background: BackgroundView,
    pub options: Options,
}

impl View for Num {
    type V = Seq<char>;

    open spec fn view(&self) -> Seq<char> {
        self.text@
    }
}

impl View for Triple {
    type V = TripleView;

    open spec fn view(&self) -> TripleView {
        (self.x@, self.y@, self.z@)
    }
}

impl View for Rgb {
    type V = TripleView;

    open spec fn view(&self) -> TripleView {
        (self.r@, self.g@, self.b@)
    }
}

impl View for Angle {
    type V = (Seq<char>, AngleUnit);

    open spec fn view(&self) -> (Seq<char>, AngleUnit) {
        (self.value@, self.unit)
    }
}

impl View for ShapeDesc {
    type V = ShapeView;

    open spec fn view(&self) -> ShapeView {
        match self {
            ShapeDesc::Sphere { center, radius } => ShapeView::Sphere(center@, radius@),
            ShapeDesc::Plane { point, normal } => ShapeView::Plane(point@, normal@),
        }
    }
}

impl View for MaterialDesc {
    type V = MaterialView;

    open spec fn view(&self) -> MaterialView {
        match self {
            MaterialDesc::Phong { diffuse, specular, exponent, ambient } =>
                MaterialView::Phong(diffuse@, specular@, exponent@, ambient@),
            MaterialDesc::Fresnel { diffuse, specular, exponent, ambient, ior } =>
                MaterialView::Fresnel(diffuse@, specular@, exponent@, ambient@, ior@),
            MaterialDesc::Transparent { specular, exponent, ior } =>
                MaterialView::Transparent(specular@, exponent@, ior@),
            MaterialDesc::IndirectPhong { diffuse, specular, exponent, ambient, samples } =>
                MaterialView::IndirectPhong(diffuse@, specular@, exponent@, ambient@, *samples),
        }
    }
}

impl View for ObjectDesc {
    type V = (ShapeView, MaterialView);

    open spec fn view(&self) -> (ShapeView, MaterialView) {
        (self.bounds@, self.material@)
    }
}

impl View for LightModelDesc {
    type V = LightModelView;

    open spec fn view(&self) -> LightModelView {
        match self {
            LightModelDesc::Point { location } => LightModelView::Point(location@),
            LightModelDesc::Directional { direction } => LightModelView::Directional(direction@),
        }
    }
}

impl View for LightDesc {
    type V = (LightModelView, TripleView);

    open spec fn view(&self) -> (LightModelView, TripleView) {
        (self.model@, self.color@)
    }
}

impl View for PerspectiveDesc {
    type V = PerspectiveView;

    open spec fn view(&self) -> PerspectiveView {
        match self {
            PerspectiveDesc::New { position, look, up, im_dist } =>
                PerspectiveView::New(position@, look@, up@, im_dist@),
            PerspectiveDesc::LookAt { focus, look, up, pov, h } =>
                PerspectiveView::LookAt(focus@, look@, up@, pov@, h@),
        }
    }
}

impl View for CameraDesc {
    type V = CameraView;

    open spec fn view(&self) -> CameraView {
        match self {
            CameraDesc::SimplePerspective(c) => CameraView::SimplePerspective(c@),
            CameraDesc::DepthOfField { camera, focus, aperture, samples } =>
                CameraView::DepthOfField(camera@, focus@, aperture@, *samples),
        }
    }
}

impl View for BackgroundDesc {
    type V = BackgroundView;

    open spec fn view(&self) -> BackgroundView {
        match self {
            BackgroundDesc::SolidColor { color } => BackgroundView::SolidColor(color@),
        }
    }
}

impl View for Options {
    type V = Options;

    open spec fn view(&self) -> Options {
        *self
    }
}

/// The views of a list of objects.
pub open spec fn object_views(v: Seq<ObjectDesc>) -> Seq<(ShapeView, MaterialView)> {
    v.map_values(|o: ObjectDesc| o@)
}

/// The views of a list of lights.
pub open spec fn light_views(v: Seq<LightDesc>) -> Seq<(LightModelView, TripleView)> {
    v.map_values(|l: LightDesc| l@)
}

impl View for SceneDesc {
    type V = SceneView;

    open spec fn view(&self) -> SceneView {
        SceneView {
            objects: object_views(self.objects@),
            lights: light_views(self.lights@),
            camera: self.camera@,
            background: self.background@,
            options: self.options,
        }
    }
}

} // verus!
