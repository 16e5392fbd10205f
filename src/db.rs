//! Credentials for the remote catalog, gathered in stages: a handle is
//! `Building` while credentials are set and `Ready` once it is connected.
use vstd::prelude::*;

use core::marker::PhantomData;

verus! {

/// The stage of a handle whose credentials are still being set.
#[derive(Debug)]
pub struct Building;

/// The stage of a connected handle.
#[derive(Debug)]
pub struct Ready;

/// A handle to the remote catalog in stage `State`.
#[derive(Debug)]
pub struct Mongo<State> {
    database: String,
    password: String,
    username: String,
    state: PhantomData<State>,
}

impl<State> Mongo<State> {
    pub closed spec fn spec_database(&self) -> Seq<char> {
        self.database@
    }

    pub closed spec fn spec_password(&self) -> Seq<char> {
        self.password@
    }

    pub closed spec fn spec_username(&self) -> Seq<char> {
        self.username@
    }

    /// A handle with every credential empty.
    pub fn new() -> (r: Self)
        ensures
            r.spec_database() == Seq::<char>::empty(),
            r.spec_password() == Seq::<char>::empty(),
            r.spec_username() == Seq::<char>::empty(),
    {
        Mongo {
            database: String::new(),
            password: String::new(),
            username: String::new(),
            state: PhantomData,
        }
    }

    /// Sets the database that queries address.
    pub fn set_database(&mut self, database: &str)
        ensures
            final(self).spec_database() == database@,
            final(self).spec_password() == old(self).spec_password(),
            final(self).spec_username() == old(self).spec_username(),
    {
        self.database = String::from_str(database);
    }

    pub fn database(&self) -> (r: &str)
        ensures
            r@ == self.spec_database(),
    {
        self.database.as_str()
    }
}

impl Mongo<Building> {
    /// Sets the password.
    pub fn set_password(&mut self, pw: &str)
        ensures
            final(self).spec_password() == pw@,
            final(self).spec_database() == old(self).spec_database(),
            final(self).spec_username() == old(self).spec_username(),
    {
        self.password = String::from_str(pw);
    }

    /// Sets the user name.
    pub fn set_user(&mut self, user: &str)
        ensures
            final(self).spec_username() == user@,
            final(self).spec_database() == old(self).spec_database(),
            final(self).spec_password() == old(self).spec_password(),
    {
        self.username = String::from_str(user);
    }

    /// The address of the catalog's cluster, with the credentials in it.
    pub fn connection_uri(&self) -> (r: String)
        ensures
            r@ == "mongodb+srv://"@ + self.spec_username() + ":"@ + self.spec_password()
                + "@plaine-cluster.tqhag7f.mongodb.net/?retryWrites=true&w=majority"@,
    {
        let mut uri = String::from_str("mongodb+srv://");
        uri.append(self.username.as_str());
        uri.append(":");
        uri.append(self.password.as_str());
        uri.append("@plaine-cluster.tqhag7f.mongodb.net/?retryWrites=true&w=majority");
        uri
    }

    /// The handle once connected, with the same credentials.
    pub fn into_ready(self) -> (r: Mongo<Ready>)
        ensures
            r.spec_database() == self.spec_database(),
            r.spec_password() == self.spec_password(),
            r.spec_username() == self.spec_username(),
    {
        Mongo {
            database: self.database,
            password: self.password,
            username: self.username,
            state: PhantomData,
        }
    }
}

} // verus!
