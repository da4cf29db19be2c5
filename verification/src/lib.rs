//! Turn a video's scene-change frames into tiled wallpaper images.
//!
//! The crate holds the pure core of the pipeline: parsing the list of
//! target display resolutions, computing a thumbnail grid layout that
//! fills a display without distorting the frames' aspect ratio, building
//! the argument lists for the external frame-extraction and compositing
//! tools, and driving the stage-by-stage orchestration as a state
//! machine. All process invocation and file I/O stays outside, in the
//! binary that wraps this library.

pub mod commands;
pub mod layout;
pub mod math;
pub mod pipeline;
pub mod resolution;
pub mod text;
