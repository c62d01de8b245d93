//! Render dispatch, shader-program caching and GPU picking.
//!
//! The library decides what is drawn, in which order, through which compiled program and
//! in which pass. The graphics device itself is reached through the [`context::Device`]
//! trait.

pub mod camera;
pub mod color;
pub mod context;
pub mod error;
pub mod line2d;
pub mod order;
pub mod picker;
pub mod render;

pub use camera::{camera2d, HalfPoint3, OrthoCamera, ScissorBox, Viewport};
pub use context::{Context, Device, DrawCall};
pub use error::{error_check, framebuffer_check, CoreError, RendererError};
pub use line2d::{Line2D, PhysicalPoint};
pub use order::{cmp_render_order, Distance2, MaterialType, OrderKey};
pub use picker::{LocationPicker, ObjectPicker, MAX_PICKABLE, NO_HIT_DEPTH};
pub use render::{plan_render, RenderPlan, RenderTarget, SceneObject};
