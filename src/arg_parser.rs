//! The options of one search run.

use vstd::prelude::*;
use crate::types::{Category, Sort};

verus! {

/// What the operator asked for on the command line.
pub struct Args {
    pub query: String,
    pub sort: Option<Sort>,
    pub category: Option<Category>,
    pub invert: bool,
    pub domain: String,
    pub print_only: bool,
}

} // verus!
