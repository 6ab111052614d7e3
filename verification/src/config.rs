//! The settings of one user.

use vstd::prelude::*;

verus! {

/// Who to log in as, and the channels to join.
#[derive(Clone, Debug, PartialEq)]
pub struct ConfigData {
    pub username: String,
    pub token: String,
    pub channels: Vec<String>,
}

} // verus!
