/// File-open flag constants understood by the surrounding kernel.
pub mod flags;
/// The two output paths, the input primitive, and the transport result model.
pub mod io;
/// Template rendering: interpolation of values into a byte template.
pub mod render;
