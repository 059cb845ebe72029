//! Decisions, formats and layouts of a gaussian-splat trainer and viewer.
//!
//! The crate holds what the program computes from plain values: how a training
//! run proceeds, what the viewer shows, how buffers are laid out on the GPU, and
//! how audio, point clouds and images are written. What needs a GPU, a network or
//! a window is done by the program around it.

pub mod audio;
pub mod base64_text;
pub mod camera;
pub mod capture;
pub mod cli;
pub mod config;
pub mod controls;
pub mod dataset_debug;
pub mod density_control;
pub mod eval;
pub mod export;
pub mod failure;
pub mod ffi;
pub mod gemini;
pub mod geometry;
pub mod gpu;
pub mod message;
pub mod npz;
pub mod num;
pub mod output_promises;
pub mod paths;
pub mod ply;
pub mod promises;
pub mod recording;
pub mod render;
pub mod render_aux;
pub mod render_bwd;
pub mod render_laws;
pub mod run_laws;
pub mod scene;
pub mod scene_laws;
pub mod text;
pub mod text_laws;
pub mod train_laws;
pub mod train_stream;
pub mod view_laws;
pub mod view_stream;
pub mod visualization;
pub mod work_promises;
