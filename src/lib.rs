pub mod geometry;
pub mod frame;
pub mod decode;
pub mod record;
pub mod scan;
