use vstd::prelude::*;

verus! {

/// One stored entry: an opaque message and the offset the log gave it.
#[derive(Debug)]
pub struct Record {
    pub message: Vec<u8>,
    pub offset: u64,
}

impl Record {
    /// A record that has not been appended yet: its offset is 0 and carries no
    /// meaning until a log assigns one.
    pub fn new(message: Vec<u8>) -> (r: Record)
        ensures
            r.message@ == message@,
            r.offset == 0,
    {
        Record { message, offset: 0 }
    }
}

} // verus!
