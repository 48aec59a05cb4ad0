use vstd::prelude::*;

verus! {

/// A stored account.
#[derive(Debug)]
pub struct User {
    pub uuid: String,
    pub username: String,
    pub password: String,
    pub phone: Option<String>,
}

/// An account as a client submits it for sign-up.
#[derive(Debug)]
pub struct NewUser {
    pub uuid: Option<String>,
    pub username: String,
    pub password: String,
    pub phone: Option<String>,
}

/// The credentials of a login request.
#[derive(Debug)]
pub struct Login {
    pub username: String,
    pub password: String,
}

} // verus!
