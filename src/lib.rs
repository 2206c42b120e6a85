//! Multi-provider OpenID Connect sign-in: provider configuration, registry,
//! session state, the authorization-code flow gates and user reconciliation.

pub mod config;
pub mod content;
pub mod settings;
pub mod error;
pub mod flow;
pub mod registry;
pub mod session;
pub mod text;
pub mod users;
