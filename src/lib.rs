//! Bounded unique sampling of generated interactions, parameterised by a
//! validated categorical distribution over interaction symbols.
pub mod profile;
pub mod sampler;
pub mod config;
