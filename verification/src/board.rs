//! The row that describes a board.

use crate::response::copy_opt;
use vstd::prelude::*;

verus! {

/// A board as the store holds it.
#[derive(Debug, Clone)]
pub struct Board {
    pub id: usize,
    pub board_key: Option<String>,
    pub name: String,
    pub local_rule: String,
}

impl Board {
    /// A copy of this board.
    pub fn copy(&self) -> (r: Board)
        ensures
            r == *self,
    {
        Board {
            id: self.id,
            board_key: copy_opt(&self.board_key),
            name: self.name.clone(),
            local_rule: self.local_rule.clone(),
        }
    }
}

} // verus!
