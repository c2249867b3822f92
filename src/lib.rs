//! Webhook-driven enrichment of knowledge-base records with catalog metadata:
//! admission checks, trigger routing, catalog resolution and property encoding.

pub mod assoc;
pub mod text;

pub mod cache;
pub mod dedup;
pub mod gateway;
pub mod rate;
pub mod retry;
pub mod signature;

pub mod encode;
pub mod media;
pub mod router;
pub mod schema;

pub mod anime;
pub mod ids;
pub mod relations;
pub mod season;
pub mod synopsis;
pub mod titles;
pub mod tmdb;
