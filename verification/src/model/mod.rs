pub mod anime;
pub mod stream;
