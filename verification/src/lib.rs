//! A step-driven local-search (hill-climbing) solver over a discrete 2-D
//! scalar field.
//!
//! The solver is a resumable state machine: each externally triggered step
//! either evaluates one neighbour of the current candidate or, once a round
//! of evaluations is complete, commits to the best improving move or stops
//! at a local optimum.  A per-cell classifier reports the role of every grid
//! position in the current state for display purposes.

pub mod field;
pub mod laws;
pub mod model;
pub mod neighbourhood;
pub mod search;

pub use field::ConfigurationError;
pub use field::Position;
pub use field::Problem;
pub use model::Model;
pub use model::Msg;
pub use search::Algo;
pub use search::CellStatus;
