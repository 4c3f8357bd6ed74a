//! A daily rota: a fixed roster of names is put in an order that depends only
//! on a seed, and the seed is derived from a calendar day or from a block hash.
pub mod block_hash;
pub mod calendar;
pub mod rota;
pub mod seed;
pub mod shuffle;
