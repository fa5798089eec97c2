//! Size accounting for the argument list and environment of a command, and
//! the packing of a stream of tokens into as few commands as the platform's
//! limits allow.

use vstd::prelude::*;

pub mod batch;
pub mod builder;
pub mod cost;
pub mod error;
pub mod laws;
pub mod limits;
pub mod overrides;
pub mod token;

pub use batch::{Action, Batcher, Outcome, Phase, HARD_STOP_CODE};
pub use builder::{CommandBuilder, Invocation};
pub use cost::Platform;
pub use error::Error;
pub use limits::CommandLimits;
pub use overrides::EnvEntry;
pub use token::{tokenize_delimited, tokenize_strict, DelimitedTokenizer, StrictTokenizer, TokenError};

verus! {

} // verus!
