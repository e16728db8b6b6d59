pub mod runtime;
pub mod select;
pub mod settings;
pub mod text;
pub mod yaml;
