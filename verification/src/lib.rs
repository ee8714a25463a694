//! Core logic of a marker-based photo rectification tool.
//!
//! A photographed identity card carries four square fiducial markers near its
//! corners.  An external detector reports, for each marker it resolves, an
//! identity and the four pixel corners of the marker's own square.  This
//! library holds everything around that detector that can be stated and
//! proved exactly: assigning marker corners to the card's canonical outer
//! quadrilateral, building the zoom-parameterized target quadrilateral for
//! the perspective solve, the upsample-only resizing policy, cropping of raw
//! RGBA pixel buffers, command-line plan validation with derived output
//! names, and the state of the interactive browser.
//!
//! Pixel coordinates are carried as integers in a fixed subpixel unit
//! ([`geometry::SUBPIX`] units per pixel), so every geometric statement here
//! is exact.

pub mod cli;
pub mod errors;
pub mod explorer;
pub mod file_explorer;
pub mod geometry;
pub mod paths;
pub mod raster;
pub mod session;
pub mod shortcuts;
