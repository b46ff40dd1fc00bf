//! The core of a price-feed protocol bridge: it decodes bid/ask ticks
//! from a FIX session, translates provider instrument ids into internal
//! ones through a mapping table, rebroadcasts normalized ticks over a
//! CRLF-framed text protocol, and buffers the latest price per
//! instrument for a periodic bulk flush. Transport, configuration
//! loading and storage stay outside; this crate supplies the codecs, the
//! fan-out, the cache and the session decisions, each under a contract.
pub mod broadcast;
pub mod clock;
pub mod fix_contract;
pub mod fix_date;
pub mod fix_msg;
pub mod fix_out;
pub mod price_cache;
pub mod session;
pub mod settings;
pub mod split;
pub mod symbol_map;
pub mod text;
pub mod wire;
