//! Declarative route compilation: route metadata, handler argument
//! classification, generated-route descriptors and embedded assets,
//! all modelled over plain values and verified.

pub mod case;
pub mod classify;
pub mod embed_asset;
pub mod http;
pub mod middleware;
pub mod parse;
pub mod registry;
pub mod server_fn;
pub mod server_state;
pub mod text;
pub mod transform;
pub mod url;
