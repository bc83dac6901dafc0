//! A TCP relay's configuration and session logic: textual endpoint rules are
//! resolved into typed connection policies, and each relay session is driven
//! by a small state machine.

pub mod addr;
pub mod conf;
pub mod endpoint;
pub mod number;
pub mod relay;
pub mod text;
pub mod tuning;
