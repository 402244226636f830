//! The deciding core of a ray caster.
//!
//! One ray is cast per pixel into a scene of coloured objects, and the pixel
//! takes the colour of the nearest object that the ray meets, or the scene's
//! background. The geometry itself, in floating point, belongs to the users of
//! this library, who implement [`scene::Shape`] and [`raytracer::RaySource`].
//! What is decided here is decided exactly, on integers: which bit patterns
//! are distances and how distances are ordered ([`distance`]), which of the
//! objects that a ray meets is the nearest ([`scene`]), and where the centre
//! of a pixel lies on the image plane ([`viewport`]).

pub mod color;
pub mod distance;
pub mod scene;
pub mod viewport;
pub mod raytracer;
