//! The users of the broker.

use vstd::prelude::*;
use vstd::string::*;
use crate::queue::{get_email_key, get_user_key};
use crate::auth::{encode, verifies};
use crate::message::{clone_text, same_text};

verus! {

/// A user as the store holds it. The password is held as a hash.
#[derive(Debug)]
pub struct User {
    pub first_name: Option<String>,
    pub last_name: Option<String>,
    pub email: Option<String>,
    pub password: Option<String>,
}

impl Clone for User {
    fn clone(&self) -> (copy: Self)
        ensures
            copy == *self,
    {
        User {
            first_name: clone_text(&self.first_name),
            last_name: clone_text(&self.last_name),
            email: clone_text(&self.email),
            password: clone_text(&self.password),
        }
    }
}

/// The value of the first field of a record that has the name.
pub open spec fn field(fields: Seq<(Seq<char>, Seq<char>)>, name: Seq<char>) -> Option<Seq<char>>
    decreases fields.len(),
{
    if fields.len() == 0 {
        None
    } else if fields.first().0 == name {
        Some(fields.first().1)
    } else {
        field(fields.drop_first(), name)
    }
}

/// The value of the first field of a record that has the name.
pub fn get_field(fields: &Vec<(String, String)>, name: &str) -> (value: Option<String>)
    ensures
        value.deep_view() == field(fields.deep_view(), name@),
{
    let ghost all = fields.deep_view();
    let mut i: usize = 0;
    assert(all.skip(0) =~= all);
    while i < fields.len()
        invariant
            all == fields.deep_view(),
            i <= fields.len(),
            field(all, name@) == field(all.skip(i as int), name@),
        decreases fields.len() - i,
    {
        assert(all.skip(i as int).first() == fields[i as int].deep_view());
        assert(all.skip(i as int).drop_first() =~= all.skip(i as int + 1));
        if same_text(fields[i].0.as_str(), name) {
            return Some(fields[i].1.clone());
        }
        i = i + 1;
    }
    None
}

impl User {
    /// A new user with the hash of the password. A password that cannot
    /// be hashed makes no user.
    pub fn new(first_name: String, last_name: String, email: String, password: String) -> (user:
        Result<User, String>)
        ensures
            match user {
                Ok(user) => {
                    &&& user.first_name == Some(first_name)
                    &&& user.last_name == Some(last_name)
                    &&& user.email == Some(email)
                    &&& user.password is Some
                    &&& verifies(password@, user.password->0@)
                },
                Err(why) => why@ == "not created"@,
            },
    {
        let encoded_password = encode(password);
        if same_text(encoded_password.as_str(), "Failed to encode") {
            return Err("not created".to_owned());
        }
        Ok(
            User {
                first_name: Some(first_name),
                last_name: Some(last_name),
                email: Some(email),
                password: Some(encoded_password),
            },
        )
    }

    /// Finds the record of the user with an email address among the ids
    /// that the store keeps for the address: the key of the record of
    /// the first of them. An address without ids belongs to no user.
    pub fn find_by_email(email: String, user_ids: &Vec<String>) -> (found: Result<String, String>)
        ensures
            match found {
                Ok(key) => user_ids.len() > 0 && key@ == "user:"@ + user_ids[0]@,
                Err(why) => user_ids.len() == 0 && why@ == "No user with key: "@ + ("email:"@
                    + email@),
            },
    {
        if user_ids.len() == 0 {
            let mut why = String::from_str("No user with key: ");
            why.append(get_email_key(&email).as_str());
            return Err(why);
        }
        Ok(get_user_key(user_ids))
    }

    /// The user that a stored record describes: each of its four fields
    /// is the value of the first field of that name, and is absent where
    /// there is none.
    pub fn new_from_hash(map: &Vec<(String, String)>) -> (user: User)
        ensures
            user.first_name.deep_view() == field(map.deep_view(), "first_name"@),
            user.last_name.deep_view() == field(map.deep_view(), "last_name"@),
            user.email.deep_view() == field(map.deep_view(), "email"@),
            user.password.deep_view() == field(map.deep_view(), "password"@),
    {
        User {
            first_name: get_field(map, "first_name"),
            last_name: get_field(map, "last_name"),
            email: get_field(map, "email"),
            password: get_field(map, "password"),
        }
    }
}

} // verus!
