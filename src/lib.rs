//! Turns a decoded RGB raster into a mosaic of colour-filled spreadsheet cells.

pub mod raster;
pub mod grid;
pub mod encode;
pub mod layout;
pub mod decode;
pub mod args;
