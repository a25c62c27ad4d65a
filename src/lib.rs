//! Calculator core: mod definitions and their registry, expression routing,
//! literal-text caches, integer helpers, history and languages.

pub mod cache;
pub mod config;
pub mod evaluator;
pub mod history;
pub mod i18n;
pub mod mods;
pub mod numeric;
pub mod record;
pub mod text;
pub mod textmap;
