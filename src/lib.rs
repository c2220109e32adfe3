//! Process-wide state stores for a canister backend: single-value cells,
//! append-only sequences and key-unique maps, the configuration record that
//! fills several cells at once, the timer tick that logs greetings, and the
//! decisions around a call to another canister.

pub mod backend;
pub mod remote;
pub mod stores;
pub mod text;

pub use backend::BackendState;
pub use remote::{resolve_target, settle_reply, CallError, CanisterId, RejectKind};
pub use stores::{MapState, StateCell, StateKey, StoreError, VecState};
pub use text::{greet, push_decimal};
