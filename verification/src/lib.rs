//! Turns a raster picture that is already told apart into foreground and
//! background into an SVG document of filled paths, one cluster of foreground
//! pixels at a time, so that a host with a single thread can do other work
//! between two steps and say how far the conversion has come.
//!
//! The clusters are found by visioncortex. Fitting an outline to a cluster
//! is left to the host; everything else (telling foreground from background,
//! counting through the clusters, leaving out speckles, writing the
//! document) is done and proved here.

#![allow(non_snake_case)]

pub mod clusters;
pub mod color;
pub mod converter;
pub mod image;
pub mod laws;
pub mod mode;
pub mod state;
pub mod svg;
pub mod text;

pub use color::Color;
pub use converter::{
    BinaryImageConverter, BinaryImageConverterParams, ConverterError, ConverterModel, Options,
    StepError,
};
pub use image::RawImageData;
pub use mode::{path_simplify_mode, PathSimplifyMode, UnknownMode};
pub use state::{ConversionState, StateModel};
pub use svg::{OptionsModel, PathData, PathModel, Svg, SvgModel, SvgOptions};
