use vstd::prelude::*;

pub mod cli;
pub mod text;
pub mod order;
pub mod browser;
pub mod model;
pub mod check;
pub mod rules;
pub mod report;
pub mod shell;
pub mod prompt;
pub mod add;
pub mod init;
pub mod paths;
pub mod log;
pub mod doctor;
pub mod audit;
pub mod webapp;
pub mod lookup;
pub mod explain;
pub mod bundle;
pub mod browse;
pub mod list;
pub mod history;
pub mod language;

verus! {

} // verus!
