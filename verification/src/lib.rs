//! Command line helpers around the Lenna image processing library: choosing
//! where and how processed images are written, packing images into zip
//! archives, finding images in a directory and deciding which plugin
//! libraries are loaded.

pub mod text;
pub mod output;
pub mod archive;
pub mod discovery;
pub mod plugins;
pub mod cli;
