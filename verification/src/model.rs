//! Shapes the controlling interface exchanges with its host: the three
//! connection operations' arguments and responses, a confirmation prompt,
//! and the keys of the external preference store.
//!
//! The store shapes only name what the external key-value collaborator is
//! asked for (a path, a key, a value); the library itself never reads or
//! writes that store — persistence belongs to the interface layer.

use vstd::prelude::*;

verus! {

/// Arguments of a connect request as the interface sends them.
#[derive(Debug)]
pub struct ConnectArgs<'a> {
    pub address: &'a str,
    pub port: i32,
}

/// Outcome of a connect operation as the interface receives it.
#[derive(Debug)]
pub struct ConnectResponse {
    pub success: Option<bool>,
    pub error: Option<String>,
}

/// Arguments of a transmit request as the interface sends them.
#[derive(Debug)]
pub struct TransmitArgs<'a> {
    pub message: &'a str,
}

/// Outcome of a transmit operation as the interface receives it.
#[derive(Debug)]
pub struct TransmitResponse {
    pub error: Option<String>,
}

/// A confirmation prompt shown before a destructive action.
#[derive(Debug)]
pub struct ConfirmArgs<'a> {
    pub msg: &'a str,
}

/// Addresses one entry of the external preference store.
#[derive(Debug)]
pub struct StoreKeyArg<'a> {
    pub path: &'a str,
    pub key: &'a str,
}

/// Writes one entry of the external preference store.
#[derive(Debug)]
pub struct StoreSetArgs<'a> {
    pub path: &'a str,
    pub key: &'a str,
    pub value: &'a str,
}

/// Options for opening the external preference store.
#[derive(Debug)]
pub struct LoadOptions {
    #[allow(non_snake_case)]
    pub autoSave: Option<bool>,
}

/// Asks the external preference store to open a file.
#[derive(Debug)]
pub struct Load<'a> {
    pub path: &'a str,
    pub options: Option<LoadOptions>,
}

} // verus!
