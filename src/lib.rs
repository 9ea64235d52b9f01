//! Building blocks of a pair of transparent TCP proxies that carry plaintext traffic
//! between them, optionally compressed inside a small framing of their own.
pub mod compression;
pub mod relay;
pub mod forward_proxy;
pub mod reverse_proxy;
