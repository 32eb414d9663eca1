//! The verified core of a generator of boilerplate for record types:
//! the grammar of annotation arguments, the merging of annotations, the
//! normalising of members and the plans of what is generated.

use vstd::prelude::*;

pub mod arg;
pub mod attr;
pub mod builder;
pub mod default;
pub mod deref;
pub mod display;
pub mod error;
pub mod field;
pub mod grammar;
pub mod idempotence;
pub mod layout;
pub mod optional;
pub mod params;
pub mod round_trip;
pub mod serialize;
pub mod set;
pub mod stage;
pub mod syntax;
pub mod themes;
pub mod token;
