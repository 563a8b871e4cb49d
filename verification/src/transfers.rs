//! File transfers under way, by their numbers.

use std::collections::HashMap;
use vstd::prelude::*;

verus! {

/// How far a transfer has come.
#[derive(Clone, Copy, Debug, PartialEq, Eq, Structural)]
pub struct Transfer {
    /// How many bytes of the file are through.
    pub offset: u64,
    /// How many bytes the file has.
    pub size: u64,
}

/// The number of some transfer.
pub fn some_transfer(transfers: &HashMap<u32, Transfer>) -> (r: Option<u32>)
    ensures
        match r {
            Some(id) => transfers@.contains_key(id),
            None => transfers@ == Map::<u32, Transfer>::empty(),
        },
{
    for id in keys: transfers.keys()
        invariant
            keys.seq().unref().to_set() == transfers@.dom(),
            keys.index() == 0,
    {
        assert(keys.seq().unref()[0] == *id);
        return Some(*id);
    }
    assert(transfers@.dom() =~= Set::<u32>::empty());
    assert(transfers@ =~= Map::<u32, Transfer>::empty());
    None
}

} // verus!
