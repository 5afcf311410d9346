pub mod account;
pub mod oauth;
pub mod session;
