//! Verified decision logic of a conversational actor: tool permissions,
//! injected-message bookkeeping, tool schemas and prompt-context text.
use vstd::prelude::*;

pub mod text;
pub mod json;
pub mod model;
pub mod session;
pub mod tools;
pub mod social_read;
pub mod memory;
pub mod intent;
pub mod messaging;
pub mod flow;
pub mod formats;
pub mod social_path;

verus! {

} // verus!
