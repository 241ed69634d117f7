//! A GPU pipeline orchestration core: typed resource descriptions, a device
//! context that records every command it is given and refuses hazardous
//! bindings, render and compute passes built declaratively and always bound in
//! full, the atmospheric look-up-table precomputation and the deferred frame
//! renderer.
pub mod resource;
pub mod backend;
pub mod shader;
pub mod render_pass;
pub mod texture;
pub mod gpu_buffer;
pub mod precompute;
pub mod renderer;
pub mod mesh;
