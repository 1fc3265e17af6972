//! Self-organizing map engine: grid state, best-matching-unit search,
//! training schedules and snapshot validation.
//!
//! Real-valued quantities (prototype weights, distances, hyperparameters) are
//! carried as IEEE-754 bit patterns. The library decides, orders, counts and
//! validates; it performs no real arithmetic itself.

pub mod error;
pub mod grid;
pub mod layout;
pub mod sampling;
pub mod scalar;
pub mod search;
pub mod som;
pub mod training;

pub use error::SomError;
pub use scalar::less_than;
pub use sampling::{DistType, Sampling};
pub use som::{weight_count, DataLabel, Plane, SomData, Volume, SOM};
pub use training::{decay_divisor, BatchRun, RandomRun, Sample};
