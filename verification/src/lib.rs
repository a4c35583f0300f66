//! A sphere-tracing renderer for distance fields, over numbers of any kind.
//!
//! The renderer computes an image of a scene that is given by a distance
//! estimator, such as a quaternion Julia set: for each pixel it casts rays
//! from a camera, marches each ray by the distance to the scene until it
//! hits or is given up, and lights each hit.
//!
//! * [`number`]: what the renderer asks of its numbers
//! * [`vec3`], [`quaternion`]: vectors of three and numbers of four
//!   dimensions
//! * [`color`]: what a value must offer to be a colour
//! * [`scene_object`], [`julia`]: what can be rendered: the trait, the
//!   normal by central differences, a sphere, and the Julia set
//! * [`ray`]: the march of a ray
//! * [`lighting`]: the lighting of a hit
//! * [`camera`]: the configuration of a render and the rays of its camera
//! * [`grid`], [`raymarcher`]: the subpixels of a pixel, and its colour
//! * [`pixel`]: from a colour to bytes
//!
//! The renderer names no type of numbers. It works on any type that has
//! the operators of [`number::Number`], together with a value that knows the
//! functions of [`number::Math`] for it. Nothing is supposed of what those
//! operations answer. Each contract says that the result is one that the
//! operations can give for the formula the function stands for, applied in
//! the order in which the formula is written. Where each operation gives one
//! answer only, that pins the result: the lemmas named `.._is_unique` say
//! so, up to the colour of a pixel.
//!
//! A vector of magnitude zero has no direction. Where one is to be brought
//! to a magnitude of one, the functions of [`vec3`] answer `None` and the
//! renderer answers with the error [`ray::ZeroMagnitude`].

pub mod camera;
pub mod color;
pub mod grid;
pub mod julia;
pub mod lighting;
pub mod number;
pub mod pixel;
pub mod quaternion;
pub mod ray;
pub mod raymarcher;
pub mod scene_object;
pub mod vec3;
