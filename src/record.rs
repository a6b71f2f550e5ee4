use vstd::prelude::*;

verus! {

/// The stored part of a user record; the record's id is held beside it.
#[derive(Debug)]
pub struct User {
    pub fullname: String,
}

impl View for User {
    type V = Seq<char>;

    /// A user is identified with its full name.
    open spec fn view(&self) -> Seq<char> {
        self.fullname@
    }
}

impl User {
    pub fn new(fullname: String) -> (r: User)
        ensures
            r@ == fullname@,
    {
        User { fullname }
    }

    pub fn fullname(&self) -> (r: &str)
        ensures
            r@ == self@,
    {
        self.fullname.as_str()
    }

    pub fn duplicate(&self) -> (r: User)
        ensures
            r@ == self@,
    {
        User { fullname: self.fullname.clone() }
    }
}

} // verus!
