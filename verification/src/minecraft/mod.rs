pub mod instances;
pub mod launcher;
pub mod loaders;
pub mod versions;
