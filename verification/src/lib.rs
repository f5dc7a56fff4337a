//! Verified core of an emulated client for continuous group key agreement.
use vstd::prelude::*;

pub mod acceptance_laws;
pub mod action;
pub mod chance;
pub mod changing_laws;
pub mod clock;
pub mod commits;
pub mod compute_path;
pub mod contact_laws;
pub mod conversation;
pub mod delivery;
pub mod fraction;
pub mod inbox;
pub mod incoming;
pub mod law_terms;
pub mod laws;
pub mod log_laws;
pub mod logbook;
pub mod membership;
pub mod merging_laws;
pub mod mls;
pub mod parameters;
pub mod path_laws;
pub mod profiling;
pub mod proposals;
pub mod receiving_laws;
pub mod record;
pub mod sending_laws;
pub mod services;
pub mod settings;
pub mod settings_laws;
pub mod sorted_iter;
pub mod startup;
pub mod table;
pub mod table_laws;
pub mod text;
pub mod text_laws;
pub mod user;
pub mod value_laws;

verus! {

} // verus!
