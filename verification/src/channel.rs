//! A chat channel's bookkeeping record: its name, the members present, and
//! its mode flags.

use vstd::prelude::*;

verus! {

/// A channel with its member list and mode flags.
#[derive(Debug)]
pub struct Channel {
    pub name: String,
    pub members: Vec<String>,
    pub flags: String,
}

impl Channel {
    /// A fresh channel holding its founding member and no flags.
    pub fn new(name: String, member: String) -> (c: Channel)
        ensures
            c.name@ == name@,
            c.members.deep_view() == seq![member@],
            c.flags@ == Seq::<char>::empty(),
    {
        let mut members: Vec<String> = Vec::new();
        members.push(member);
        proof {
            assert(members.deep_view() =~= seq![members@[0]@]);
        }
        Channel { name, members, flags: String::new() }
    }
}

} // verus!
