//! The verified core of a small real-time 3D engine: mesh geometry, the scene,
//! the bookkeeping of GPU resources and the plan of each frame, and the
//! discrete state of an orbit camera controller.
//!
//! Everything here works on whole numbers and flags. Coordinates, angles and
//! matrices are the application's: a mesh carries its position, rotation and
//! scale, and a geometry its vertices, as values of types that the
//! application chooses. The application also owns the GPU: the renderer here
//! names the resources and plans each frame, and the application makes the
//! resources under those names and carries the plan out.

pub mod box_geometry;
pub mod camera_controls;
pub mod device;
pub mod engine;
pub mod geometry;
pub mod mesh;
pub mod plane_geometry;
pub mod renderer;
pub mod scene;
pub mod unit_vertex;

pub use box_geometry::BoxGeometry;
pub use camera_controls::{CameraControls, Effect, Input};
pub use device::{Device, ResourceId};
pub use engine::Engine;
pub use geometry::{Geometry, GeometryError};
pub use mesh::Mesh;
pub use plane_geometry::PlaneGeometry;
pub use renderer::{Allocation, DrawCall, Frame, Renderer, UniformWrite};
pub use scene::Scene;
pub use unit_vertex::UnitVertex;
