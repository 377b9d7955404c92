use vstd::prelude::*;

verus! {

/// An error of the class file writer, with its message.
#[derive(Debug)]
pub struct Error {
    msg: String,
}

impl Error {
    pub closed spec fn spec_msg(&self) -> Seq<char> {
        self.msg@
    }

    pub fn new(msg: &str) -> (r: Error)
        ensures
            r.spec_msg() == msg@,
    {
        Error { msg: msg.to_owned() }
    }
}

} // verus!
