//! Signed-URL asset proxy core: the authenticated-target codec, the header
//! rules, the upstream request and response shaping, and the response policy.

pub mod authenticated_target;
pub mod encoding;
pub mod errors;
pub mod header_wrangler;
pub mod proxy;
pub mod server;
pub mod settings;
pub mod text;

pub use authenticated_target::AuthenticatedTarget;
pub use proxy::Proxy;
pub use settings::Settings;
