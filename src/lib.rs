//! Geometry of a low-resolution pixel camera: the offscreen target it
//! renders into, the canvas quad that shows that target scaled up, and the
//! per-frame passes that keep both consistent, with optional sub-pixel
//! snapping of the camera and smoothing of the canvas.
pub mod fixed_point;
pub mod pixel_canvas;
pub mod pixel_camera_snapping;
pub mod pixel_canvas_smoothing;
pub mod pixel_camera;
pub mod pixel_image;
pub mod pixel_scene;
pub mod pixel_camera_schedule;
