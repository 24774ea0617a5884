pub mod container;
pub mod descriptor;
pub mod enter;
pub mod lookup;
pub mod mp4box;
pub mod spec;
pub mod utils;
