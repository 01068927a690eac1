//! The decision logic of a scene renderer: what to paint, in which order, and
//! what retained state to keep. Drawing itself is left to the host.
pub mod combined_effect;
pub mod combined_effect_laws;
pub mod compositor_surfaces;
pub mod drawing_laws;
pub mod effect_graph;
pub mod effect_graph_laws;
pub mod effect_pass_laws;
pub mod effect_run;
pub mod external_images;
pub mod external_texture;
pub mod frame;
pub mod frame_laws;
pub mod opaque_tenant;
pub mod pipeline;
pub mod pixels;
pub mod renderer;
pub mod retained_laws;
pub mod scene;
pub mod single;
pub mod surface_tiles;
pub mod text;
pub mod uniforms;
