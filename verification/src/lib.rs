use vstd::prelude::*;

pub mod text;
pub mod model;
pub mod drivers;
pub mod i18n;
pub mod profiles;
pub mod updates;
pub mod settings;
pub mod runtime_status;
pub mod history;
pub mod safety;
pub mod apn;
pub mod helper;
pub mod communications;
pub mod monitor;
pub mod traffic;
pub mod diagnostics;

verus! {
} // verus!
