// The exact, float-free core of a recursive sphere ray tracer: how a light path ends,
// which surface a ray hits first, and the plain-text PPM image format.
pub mod light_path;
pub mod nearest;
pub mod ppm;
