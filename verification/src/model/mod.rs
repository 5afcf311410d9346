pub mod account;
