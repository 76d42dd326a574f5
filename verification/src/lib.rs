//! A procedural fire effect: a toroidal heat field diffused upward each
//! frame, mapped through an HSL-derived color palette to a packed pixel
//! buffer, with a plain-text pixmap export of the rendered frame.

pub mod heat;
pub mod palette;
pub mod compose;
pub mod ppm;
