//! Verified core of a progressive path tracer: the scene options, the
//! render bookkeeping, the text formats it writes and the decisions the
//! interactive front end takes. Colour arithmetic lives with the front end.

pub mod canvas;
pub mod decimal;
pub mod material;
pub mod ppm;
pub mod renderer;
pub mod scene;
pub mod session;
