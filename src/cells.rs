use vstd::prelude::*;

verus! {

/// The state of one grid position.
#[allow(clippy::upper_case_acronyms)]
#[derive(Clone, Copy, Debug, PartialEq, Eq, Structural)]
pub enum Cells {
    DEAD,
    ALIVE,
}

/// What a cell adds to its neighbours' count: 1 when alive, 0 when dead.
pub open spec fn cell_value(c: Cells) -> int {
    match c {
        Cells::DEAD => 0,
        Cells::ALIVE => 1,
    }
}

impl Cells {
    /// The cell as a small integer, for summing neighbour counts.
    pub fn value(self) -> (r: u8)
        ensures
            r as int == cell_value(self),
    {
        match self {
            Cells::DEAD => 0,
            Cells::ALIVE => 1,
        }
    }
}

} // verus!
