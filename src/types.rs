pub mod id;
pub mod io;
