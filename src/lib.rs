//! Render-correlation core for a headless-browser frame renderer.
//!
//! The browser page can only answer by painting pixels; this crate turns those
//! paints back into request/response messages, routes them by nonce, and keeps a
//! per-object cache of rendered frames.
//!
//! - [`codec`]: the pixel framing of messages, and its round trip.
//! - [`capture`]: packing paints into tight RGBA8 buffers, cutting regions.
//! - [`dispatch`]: the nonce table and the routing of paints to it.
//! - [`render_loop`]: initialization state and batch admission.
//! - [`fingerprint`], [`order`]: cache keys independent of parameter order.
//! - [`cache`]: per-object frame cache and when to render.
//! - [`host`], [`script`], [`notify`], [`types`]: records and glue values.
pub mod cache;
pub mod capture;
pub mod codec;
pub mod dispatch;
pub mod fingerprint;
pub mod host;
pub mod notify;
pub mod order;
pub mod render_loop;
pub mod script;
pub mod types;
