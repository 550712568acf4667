//! A raster drawing surface that one pixel buffer backs, partitioned into
//! rectangular regions that share the buffer.
pub mod canvas;
pub mod pixels;
pub mod region;
