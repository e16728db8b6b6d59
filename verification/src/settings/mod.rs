pub mod codec_laws;
pub mod decode;
pub mod defaults;
pub mod document;
pub mod document_laws;
pub mod encode;
pub mod manager;
pub mod mapping_laws;
pub mod mapping_ops;
pub mod model;
pub mod preserve;
pub mod preserve_laws;
pub mod order_laws;
pub mod reorder_laws;
pub mod session;
pub mod validation;
