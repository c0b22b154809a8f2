//! Login form and the pages around it.

use vstd::prelude::*;

verus! {

/// The login form's fields.
#[derive(Clone, Debug)]
pub struct LoginForm {
    pub username: String,
    pub password: String,
}

} // verus!
