pub mod collections;
pub mod record;
