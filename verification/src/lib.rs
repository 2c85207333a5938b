//! A space-as-modifier keyboard remapper.
//!
//! One physical keyboard is read exclusively; a synthetic keyboard is fed
//! with the remapped stream. The heart of the crate is a three-state
//! machine (`machine`): while the space key is held, a decision window
//! tells a plain tap apart from a layer shift, and a bounded key buffer
//! (`buffer`) tracks which keys the window has claimed. Every emission
//! decision is made here, in verified code; the device, configuration
//! file and user interface plumbing live outside the library and talk to
//! it through plain values.

pub mod buffer;
pub mod config;
pub mod laws;
pub mod machine;
pub mod ui;

pub use buffer::KeyBuffer;
pub use buffer::MAX_BUFFER;
pub use config::Config;
pub use machine::KeyValue;
pub use machine::State;
pub use machine::StateMachine;
