//! `head.txt`: the local rule of a board.

use crate::board::Board;
use vstd::prelude::*;

verus! {

/// The text of `head.txt` for a board: its local rule. None where the
/// board could not be found.
pub fn route_head_txt(found: Result<Option<Board>, ()>) -> (r: Option<String>)
    ensures
        match r {
            Some(text) => found is Ok && found->Ok_0 is Some && text@
                == found->Ok_0->0.local_rule@,
            None => !(found is Ok && found->Ok_0 is Some),
        },
{
    match found {
        Ok(Some(board)) => Some(board.local_rule),
        _ => None,
    }
}

} // verus!
