pub mod cli;
pub mod launch;
pub mod store;
pub mod text;
