//! Policy core of a modular social backend: capability resolution, moderation
//! authority, group roles, content audiences and request validation.

pub mod text;
pub mod error;
pub mod features;
pub mod validation;
pub mod auth;
pub mod moderation;
pub mod groups;
pub mod posts;
pub mod review;
pub mod chat;
pub mod relationships;
pub mod profiles;
pub mod signals;
