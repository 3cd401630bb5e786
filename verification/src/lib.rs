pub mod cleanup;
pub mod compile;
pub mod decimal;
pub mod error;
pub mod lines;
pub mod manifest;
pub mod matcher;
pub mod publish;
pub mod targets;
pub mod text;
pub mod version;
