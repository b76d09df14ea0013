//! State and metadata of the appchains registered in the relay.
pub mod delegator;
pub mod fact;
pub mod metadata;
pub mod state;
pub mod validator;
