//! The register of the users that are in the chat.

use vstd::hash_map::StringHashMap;
use vstd::prelude::*;

verus! {

/// The users in the chat: each username with the address that its user connected from.
#[verifier::reject_recursive_types(A)]
pub struct Users<A> {
    addresses: StringHashMap<A>,
}

impl<A> View for Users<A> {
    type V = Map<Seq<char>, A>;

    closed spec fn view(&self) -> Map<Seq<char>, A> {
        self.addresses@
    }
}

impl<A> Users<A> {
    /// A register without users.
    pub fn new() -> (users: Self)
        ensures
            users@ == Map::<Seq<char>, A>::empty(),
    {
        Users { addresses: StringHashMap::new() }
    }

    /// Tells whether `username` is taken.
    pub fn contains(&self, username: &str) -> (taken: bool)
        ensures
            taken == self@.contains_key(username@),
    {
        self.addresses.contains_key(username)
    }

    /// Enters `username` with its address, unless the username is taken, and tells whether it did.
    pub fn enter(&mut self, username: String, address: A) -> (entered: bool)
        ensures
            entered == !old(self)@.contains_key(username@),
            entered ==> final(self)@ == old(self)@.insert(username@, address),
            !entered ==> final(self)@ == old(self)@,
    {
        if self.contains(username.as_str()) {
            false
        } else {
            self.addresses.insert(username, address);
            true
        }
    }

    /// Strikes `username` out; a username that is not there is no error.
    pub fn remove(&mut self, username: &str)
        ensures
            final(self)@ == old(self)@.remove(username@),
    {
        self.addresses.remove(username);
    }
}

} // verus!
