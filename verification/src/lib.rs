//! Ledger core for guilds and escrowed asset classes.

pub mod account;
pub mod asset_class;
pub mod class_factory;
pub mod currency;
pub mod delegation;
pub mod game;
pub mod guild;
pub mod origin;
