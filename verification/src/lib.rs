//! Texture upscaling with model-aware seams.
//!
//! The library scales textures by xBRZ. Textures that tile keep their context
//! at the edges, and textures of box models are repaired along the seams
//! between the faces of a box. Around that it decides what to take from a jar,
//! which model a texture belongs to, and what to say of the outcome.
pub mod animation;
pub mod blocks;
pub mod codec;
pub mod console;
pub mod cube;
pub mod entity;
pub mod frames;
pub mod json;
pub mod keys;
pub mod limits;
pub mod listing;
pub mod matching;
pub mod model;
pub mod order;
pub mod overlay;
pub mod parse;
pub mod paths;
pub mod process;
pub mod raster;
pub mod render;
pub mod report;
pub mod studio;
pub mod text;
pub mod tile;
pub mod upscaling;
