//! Integer side of a small pinhole-camera ray tracer: where each pixel of the
//! RGBA frame lies, how encoded colors are laid into the frame, what the
//! interactive loop does in answer to input, and how a failed call is reported.

pub mod frame;
pub mod input;
pub mod report;
