//! The page that orders a request's response extracts.
use vstd::prelude::*;
use crate::request_list::{spec_wrap_index, wrap_index};
use crate::text::copy_str;

verus! {

/// One extract on the page: the variable it fills and the path it reads.
pub struct ExtractRow {
    pub variable: String,
    pub path: String,
}

/// What a key on the page asks for.
pub enum ExtractsCommand {
    Back,
    Up,
    Down,
    ReorderUp,
    ReorderDown,
}

/// What the page tells its owner after a key.
#[derive(PartialEq, Eq, Structural, Debug)]
pub enum ExtractsPageAction {
    Reordered,
    Close,
}

/// The extracts in their order and the selected one.
pub struct ExtractsPage {
    pub rows: Vec<ExtractRow>,
    pub selected: usize,
}

pub open spec fn row_view(r: ExtractRow) -> (Seq<char>, Seq<char>) {
    (r.variable@, r.path@)
}

pub open spec fn rows_view(rows: Seq<ExtractRow>) -> Seq<(Seq<char>, Seq<char>)> {
    rows.map_values(|r: ExtractRow| row_view(r))
}

/// The rows after moving the selected one a step back (`direction < 0`) or forward
/// (`direction > 0`), and the selection that follows it; `None` when it cannot move.
pub open spec fn spec_reorder(
    rows: Seq<(Seq<char>, Seq<char>)>,
    selected: int,
    direction: int,
) -> Option<(Seq<(Seq<char>, Seq<char>)>, int)> {
    let target = if direction < 0 {
        selected - 1
    } else if direction > 0 {
        selected + 1
    } else {
        -1
    };
    if rows.len() < 2 || selected < 0 || selected >= rows.len() || target < 0 || target >= rows.len() {
        None
    } else {
        Some((rows.update(selected, rows[target]).update(target, rows[selected]), target))
    }
}

impl ExtractsPage {
    /// The selection is on a row, or at zero on an empty page.
    pub open spec fn wf(&self) -> bool {
        self.selected == 0 || self.selected < self.rows@.len()
    }

    pub open spec fn view_rows(&self) -> Seq<(Seq<char>, Seq<char>)> {
        rows_view(self.rows@)
    }

    pub fn new(rows: Vec<ExtractRow>) -> (r: ExtractsPage)
        ensures
            r.wf(),
            r.rows@ == rows@,
            r.selected == 0,
    {
        ExtractsPage { rows, selected: 0 }
    }

    /// Moves the selection by `direction`, wrapping around; nothing on an empty page.
    pub fn move_selection(&mut self, direction: isize)
        requires
            old(self).wf(),
        ensures
            final(self).wf(),
            final(self).rows@ == old(self).rows@,
            old(self).rows@.len() == 0 ==> final(self).selected == old(self).selected,
            old(self).rows@.len() > 0 ==> final(self).selected == spec_wrap_index(
                old(self).selected as int,
                direction as int,
                old(self).rows@.len() as int,
            ),
    {
        let count = self.rows.len();
        if count > 0 {
            self.selected = wrap_index(self.selected, direction, count);
        }
    }

    /// Selects a row; an index past the end changes nothing.
    pub fn select(&mut self, index: usize)
        requires
            old(self).wf(),
        ensures
            final(self).wf(),
            final(self).rows@ == old(self).rows@,
            final(self).selected == if index < old(self).rows@.len() {
                index
            } else {
                old(self).selected
            },
    {
        if index < self.rows.len() {
            self.selected = index;
        }
    }

    /// Moves the selected row one place back or forward and keeps it selected; says
    /// whether it moved.
    pub fn reorder(&mut self, direction: isize) -> (moved: bool)
        requires
            old(self).wf(),
        ensures
            final(self).wf(),
            match spec_reorder(old(self).view_rows(), old(self).selected as int, direction as int) {
                Some((rows, target)) => moved && final(self).view_rows() == rows && final(self).selected == target,
                None => !moved && final(self).view_rows() == old(self).view_rows()
                    && final(self).selected == old(self).selected,
            },
    {
        let count = self.rows.len();
        if count < 2 {
            return false;
        }
        let target: usize = if direction < 0 {
            if self.selected == 0 {
                return false;
            }
            self.selected - 1
        } else if direction > 0 {
            if self.selected + 1 < count {
                self.selected + 1
            } else {
                return false;
            }
        } else {
            return false;
        };
        let ghost before = self.view_rows();
        let ghost sel = self.selected as int;
        let (lo, hi) = if target < self.selected {
            (target, self.selected)
        } else {
            (self.selected, target)
        };
        let ghost rows_before = self.rows@;
        let later = self.rows.remove(hi);
        self.rows.insert(lo, later);
        proof {
            assert(self.rows@ =~= rows_before.update(lo as int, rows_before[hi as int]).update(
                hi as int,
                rows_before[lo as int],
            ));
        }
        proof {
            assert(self.view_rows() =~= before.update(sel, before[target as int]).update(
                target as int,
                before[sel],
            ));
        }
        self.selected = target;
        true
    }

    /// The variables in their current order.
    pub fn order(&self) -> (r: Vec<String>)
        ensures
            r@.map_values(|s: String| s@) == self.view_rows().map_values(
                |p: (Seq<char>, Seq<char>)| p.0,
            ),
    {
        let mut out: Vec<String> = Vec::new();
        let mut i: usize = 0;
        while i < self.rows.len()
            invariant
                i <= self.rows@.len(),
                out@.len() == i,
                forall|j: int| 0 <= j < i ==> #[trigger] out@[j]@ == self.rows@[j].variable@,
            decreases self.rows@.len() - i,
        {
            out.push(copy_str(self.rows[i].variable.as_str()));
            i = i + 1;
        }
        proof {
            assert(out@.map_values(|s: String| s@) =~= self.view_rows().map_values(
                |p: (Seq<char>, Seq<char>)| p.0,
            ));
        }
        out
    }

    /// Acts on a key: back closes, up and down move the selection, the reorder keys move
    /// the selected row and report it when it moved.
    pub fn handle_key(&mut self, command: Option<ExtractsCommand>) -> (r: Option<ExtractsPageAction>)
        requires
            old(self).wf(),
        ensures
            final(self).wf(),
            match command {
                Some(ExtractsCommand::Back) => r == Some(ExtractsPageAction::Close) && *final(self) == *old(self),
                Some(ExtractsCommand::Up) | Some(ExtractsCommand::Down) => r is None
                    && final(self).rows@ == old(self).rows@,
                Some(ExtractsCommand::ReorderUp) => (r == Some(ExtractsPageAction::Reordered))
                    == spec_reorder(old(self).view_rows(), old(self).selected as int, -1) is Some,
                Some(ExtractsCommand::ReorderDown) => (r == Some(ExtractsPageAction::Reordered))
                    == spec_reorder(old(self).view_rows(), old(self).selected as int, 1) is Some,
                None => r is None && *final(self) == *old(self),
            },
            command matches Some(ExtractsCommand::Up) && old(self).rows@.len() > 0 ==> final(self).selected == spec_wrap_index(old(self).selected as int, -1, old(self).rows@.len() as int),
            command matches Some(ExtractsCommand::Down) && old(self).rows@.len() > 0 ==> final(self).selected == spec_wrap_index(old(self).selected as int, 1, old(self).rows@.len() as int),
    {
        match command {
            Some(ExtractsCommand::Back) => Some(ExtractsPageAction::Close),
            Some(ExtractsCommand::Up) => {
                self.move_selection(-1);
                None
            },
            Some(ExtractsCommand::Down) => {
                self.move_selection(1);
                None
            },
            Some(ExtractsCommand::ReorderUp) => if self.reorder(-1) {
                Some(ExtractsPageAction::Reordered)
            } else {
                None
            },
            Some(ExtractsCommand::ReorderDown) => if self.reorder(1) {
                Some(ExtractsPageAction::Reordered)
            } else {
                None
            },
            None => None,
        }
    }
}

/// Moving a row one place forward and then one place back restores the page.
pub proof fn law_reorder_round_trip(rows: Seq<(Seq<char>, Seq<char>)>, selected: int)
    requires
        spec_reorder(rows, selected, 1) is Some,
    ensures
        match spec_reorder(rows, selected, 1) {
            Some((moved, target)) => spec_reorder(moved, target, -1) == Some((rows, selected)),
            None => false,
        },
{
    let target = selected + 1;
    let moved = rows.update(selected, rows[target]).update(target, rows[selected]);
    assert(spec_reorder(rows, selected, 1) == Some((moved, target)));
    assert(moved.len() == rows.len());
    let back = moved.update(target, moved[selected]).update(selected, moved[target]);
    assert(back =~= rows);
    assert(spec_reorder(moved, target, -1) == Some((back, selected)));
}

/// Moving the selection forward and then back returns it to where it was.
pub proof fn law_selection_round_trip(selected: int, count: int)
    requires
        0 <= selected < count,
    ensures
        spec_wrap_index(spec_wrap_index(selected, 1, count), -1, count) == selected,
{
    vstd::arithmetic::div_mod::lemma_add_mod_noop(selected, 1, count);
    let s1 = (selected + 1) % count;
    vstd::arithmetic::div_mod::lemma_add_mod_noop(s1, -1, count);
    vstd::arithmetic::div_mod::lemma_add_mod_noop(selected + 1, -1, count);
    vstd::arithmetic::div_mod::lemma_small_mod(selected as nat, count as nat);
    vstd::arithmetic::div_mod::lemma_mod_twice(selected + 1, count);
}

} // verus!
