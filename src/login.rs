//! The user name and password typed into the login form.
use vstd::prelude::*;

verus! {

/// What the login form holds.
#[derive(Debug, Clone, Default)]
pub struct LoginFormProp {
    user: String,
    pass: String,
}

impl LoginFormProp {
    pub closed spec fn spec_user(&self) -> Seq<char> {
        self.user@
    }

    pub closed spec fn spec_pass(&self) -> Seq<char> {
        self.pass@
    }

    /// Copies of the user name and password.
    pub fn clone_get(&self) -> (r: (String, String))
        ensures
            r.0@ == self.spec_user(),
            r.1@ == self.spec_pass(),
    {
        let user = self.user.clone();
        let pass = self.pass.clone();
        (user, pass)
    }

    /// Replaces the user name and password.
    pub fn set(&mut self, user: &str, pass: &str)
        ensures
            final(self).spec_user() == user@,
            final(self).spec_pass() == pass@,
    {
        self.user = String::from_str(user);
        self.pass = String::from_str(pass);
    }
}

} // verus!
