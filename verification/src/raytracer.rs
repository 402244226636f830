//! The renderer: one ray per pixel, resolved to a colour.

use vstd::prelude::*;
use crate::color::Color;
use crate::scene::{Scene, Shape};

verus! {

/// Whatever turns a pixel into the ray that is cast through it.
pub trait RaySource {
    /// The rays that this source casts.
    type Ray;

    fn camera_ray(&self, x: u32, y: u32) -> Self::Ray;
}

/// A camera in front of a scene.
pub struct Raytracer<C, S> {
    pub camera: C,
    pub scene: Scene<S>,
}

impl<C: RaySource, S: Shape<Ray = C::Ray>> Raytracer<C, S> {
    /// Whether `ray` is a ray that the camera may cast through pixel `(x, y)`.
    pub open spec fn may_cast(&self, x: u32, y: u32, ray: C::Ray) -> bool {
        call_ensures(C::camera_ray, (&self.camera, x, y), ray)
    }

    /// The colour of pixel `(x, y)`: what the scene shows along the ray that
    /// the camera casts through it.
    ///
    /// So an empty scene gives its background, and no colour comes from
    /// anywhere but the scene.
    pub fn pixel(&self, x: u32, y: u32) -> (res: Color)
        ensures
            exists|ray: C::Ray| #[trigger]
                self.may_cast(x, y, ray) && self.scene.may_show(&ray, res),
            self.scene.objects@.len() == 0 ==> res == self.scene.background,
            res == self.scene.background || exists|i: int|
                0 <= i < self.scene.objects@.len() && res == (
                #[trigger] self.scene.objects@[i]).color,
    {
        let ray = self.camera.camera_ray(x, y);
        let color = self.scene.cast(&ray);
        assert(self.may_cast(x, y, ray) && self.scene.may_show(&ray, color));
        color
    }
}

} // verus!
