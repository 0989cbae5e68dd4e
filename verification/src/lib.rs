//! Letterbox geometry for a fixed virtual resolution inside a resizable
//! surface.
//!
//! Given the size of the surface and the resolution that content was
//! designed for, [`compute`] returns one uniform scale, the margin that
//! centers the content, and the four bars that cover what is left over.
//! Sizes come in as whole units and results go out as exact fractions, so
//! nothing is rounded on the way.
//!
//! - [`model`] says over the real numbers what the layout is, and proves what
//!   holds of every layout.
//! - [`ratio`] holds the exact fractions.
//! - [`side`] names the four bars.
//! - [`scaler`] holds the executable code, proved to return the layout of
//!   [`model`].

pub mod model;
pub mod ratio;
pub mod scaler;
pub mod side;

pub use ratio::Ratio;
pub use scaler::compute;
pub use scaler::on_resize;
pub use scaler::ContentMargin;
pub use scaler::MaskRect;
pub use scaler::Resolution;
pub use scaler::ScaleError;
pub use scaler::ScaleResult;
pub use scaler::SurfaceSize;
pub use side::AspectRatioMaskSide;
