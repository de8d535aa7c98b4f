//! A small file hosting service: the rules that decide how uploads are named,
//! who may upload, and how a stored file is presented back to a client.

pub mod auth;
pub mod encoding;
pub mod error;
pub mod extensions;
pub mod media;
pub mod metadata;
pub mod opengraph;
pub mod serve;
pub mod template;
pub mod templates;
pub mod text;
pub mod upload;
