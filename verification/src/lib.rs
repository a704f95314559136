//! A memoizing call engine: calls of registered functions become tasks, and
//! a call with the arguments of an earlier one gets the earlier task back.

pub mod cache;
pub mod engine;
pub mod error;
pub mod handles;
pub mod interner;
pub mod memo;
pub mod scheduler;
pub mod table;

pub use engine::{dynamic_call, intern, CachedInvocation, TurboTasks};
pub use error::EngineError;
pub use handles::{FunctionId, TaskHandle, TypeTag, ValueHandle};
pub use memo::{Call, Found};
pub use scheduler::{Execution, Step};
