//! Keyboard selection in the history list.
use vstd::prelude::*;

verus! {

#[derive(Debug, Clone, Copy, PartialEq, Eq, Structural)]
pub enum SelectionWrapMode {
    Wrap,
    Clamp,
}

#[derive(Debug, Clone, Copy, PartialEq, Eq, Structural)]
pub enum SelectionMove {
    Next,
    Previous,
}

#[derive(Debug, Clone, Copy, PartialEq, Eq, Structural)]
pub struct SelectionState {
    pub selected_index: Option<usize>,
    pub item_count: usize,
    pub wrap_mode: SelectionWrapMode,
}

/// The selected position after a move from `i` among `count` items.
pub open spec fn moved_index(i: nat, count: nat, direction: SelectionMove, mode: SelectionWrapMode) -> nat
    recommends
        count > 0,
{
    match (direction, mode) {
        (SelectionMove::Next, SelectionWrapMode::Wrap) => ((i + 1) % count) as nat,
        (SelectionMove::Next, SelectionWrapMode::Clamp) => if i + 1 <= count - 1 {
            i + 1
        } else {
            (count - 1) as nat
        },
        (SelectionMove::Previous, SelectionWrapMode::Wrap) => if i == 0 {
            (count - 1) as nat
        } else {
            (i - 1) as nat
        },
        (SelectionMove::Previous, SelectionWrapMode::Clamp) => if i == 0 {
            0
        } else {
            (i - 1) as nat
        },
    }
}

impl SelectionState {
    /// The selection points into the list (or nothing is selected).
    pub open spec fn in_range(self) -> bool {
        self.selected_index matches Some(i) ==> i < self.item_count
    }

    /// A move is possible without leaving the integer range: a selection implies a
    /// non-empty list, and stepping forward from the largest index is impossible.
    pub open spec fn can_move(self, direction: SelectionMove) -> bool {
        self.selected_index matches Some(i) ==> {
            &&& self.item_count > 0
            &&& (direction == SelectionMove::Next && self.wrap_mode == SelectionWrapMode::Wrap
                ==> i < usize::MAX)
        }
    }

    /// The first item selected when there are items.
    pub fn new(item_count: usize, wrap_mode: SelectionWrapMode) -> (r: Self)
        ensures
            r.item_count == item_count,
            r.wrap_mode == wrap_mode,
            r.selected_index == if item_count > 0 {
                Some(0usize)
            } else {
                None
            },
    {
        SelectionState {
            selected_index: if item_count > 0 {
                Some(0)
            } else {
                None
            },
            item_count,
            wrap_mode,
        }
    }

    /// Moves the selection one item, wrapping around or stopping at the ends.
    pub fn move_selection(self, direction: SelectionMove) -> (r: Self)
        requires
            self.can_move(direction),
        ensures
            r.item_count == self.item_count,
            r.wrap_mode == self.wrap_mode,
            r.selected_index == match self.selected_index {
                None => None,
                Some(i) => Some(
                    moved_index(i as nat, self.item_count as nat, direction, self.wrap_mode) as usize,
                ),
            },
    {
        let mut s = self;
        let selected_index = match s.selected_index {
            Some(i) => i,
            None => {
                return s;
            },
        };
        let next = match (direction, s.wrap_mode) {
            (SelectionMove::Next, SelectionWrapMode::Wrap) => (selected_index + 1) % s.item_count,
            (SelectionMove::Next, SelectionWrapMode::Clamp) => {
                let stepped = selected_index.saturating_add(1);
                if stepped <= s.item_count - 1 {
                    stepped
                } else {
                    s.item_count - 1
                }
            },
            (SelectionMove::Previous, SelectionWrapMode::Wrap) => {
                if selected_index == 0 {
                    s.item_count - 1
                } else {
                    selected_index - 1
                }
            },
            (SelectionMove::Previous, SelectionWrapMode::Clamp) => selected_index.saturating_sub(1),
        };
        s.selected_index = Some(next);
        s
    }

    /// Selects a position when it is in the list, nothing otherwise.
    pub fn select_index(self, index: usize) -> (r: Self)
        ensures
            r.item_count == self.item_count,
            r.wrap_mode == self.wrap_mode,
            r.selected_index == if index < self.item_count {
                Some(index)
            } else {
                None
            },
    {
        let mut s = self;
        s.selected_index = if index < s.item_count {
            Some(index)
        } else {
            None
        };
        s
    }

    /// Adjusts the selection to a new list length: nothing in an empty list, the
    /// same position while it exists, the last item otherwise.
    pub fn update_item_count(self, item_count: usize) -> (r: Self)
        ensures
            r.item_count == item_count,
            r.wrap_mode == self.wrap_mode,
            r.selected_index == if item_count == 0 {
                None
            } else {
                match self.selected_index {
                    Some(i) => if i < item_count {
                        Some(i)
                    } else {
                        Some((item_count - 1) as usize)
                    },
                    None => Some((item_count - 1) as usize),
                }
            },
    {
        let mut s = self;
        s.item_count = item_count;
        s.selected_index = match (s.selected_index, item_count) {
            (_, 0) => None,
            (Some(index), count) if index < count => Some(index),
            _ => Some(item_count - 1),
        };
        s
    }
}

/// Every operation keeps the selection within the list.
pub proof fn lemma_selection_stays_in_range(
    s: SelectionState,
    direction: SelectionMove,
    count: usize,
    index: usize,
)
    requires
        s.in_range(),
    ensures
        s.can_move(direction),
        ({
            let r = SelectionState {
                selected_index: match s.selected_index {
                    None => None,
                    Some(i) => Some(
                        moved_index(i as nat, s.item_count as nat, direction, s.wrap_mode) as usize,
                    ),
                },
                ..s
            };
            r.in_range()
        }),
{
}

/// Without wrapping, a move goes one step, stopping at the ends of the list: it
/// changes the selection by at most one, Next never moves up and Previous never
/// moves down, and a move away from an inner position is undone by the opposite
/// move.
pub proof fn lemma_clamp_moves_step_by_one(i: nat, count: nat)
    requires
        i < count,
    ensures
        ({
            let next = moved_index(i, count, SelectionMove::Next, SelectionWrapMode::Clamp);
            let prev = moved_index(i, count, SelectionMove::Previous, SelectionWrapMode::Clamp);
            &&& next < count && prev < count
            &&& i <= next <= i + 1
            &&& i - 1 <= prev <= i
            &&& (i + 1 < count ==> next == i + 1)
            &&& (i > 0 ==> prev + 1 == i)
            &&& (i + 1 < count ==> moved_index(
                next,
                count,
                SelectionMove::Previous,
                SelectionWrapMode::Clamp,
            ) == i)
            &&& (i > 0 ==> moved_index(prev, count, SelectionMove::Next, SelectionWrapMode::Clamp)
                == i)
        }),
{
}

/// With wrapping, moving forward and then back returns to the same item, and so does
/// moving back and then forward.
pub proof fn lemma_wrap_moves_are_inverse(i: nat, count: nat)
    requires
        i < count,
    ensures
        moved_index(
            moved_index(i, count, SelectionMove::Next, SelectionWrapMode::Wrap),
            count,
            SelectionMove::Previous,
            SelectionWrapMode::Wrap,
        ) == i,
        moved_index(
            moved_index(i, count, SelectionMove::Previous, SelectionWrapMode::Wrap),
            count,
            SelectionMove::Next,
            SelectionWrapMode::Wrap,
        ) == i,
{
    if i + 1 < count {
        assert((i + 1) % count == i + 1) by (nonlinear_arith)
            requires
                i + 1 < count,
        ;
    } else {
        assert((i + 1) % count == 0) by (nonlinear_arith)
            requires
                i + 1 == count,
        ;
    }
    if i == 0 {
        assert(((count - 1) + 1) % (count as int) == 0) by (nonlinear_arith)
            requires
                count > 0,
        ;
    } else {
        assert((((i - 1) + 1) as nat) % count == i) by (nonlinear_arith)
            requires
                0 < i < count,
        ;
    }
}

} // verus!
