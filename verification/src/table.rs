use vstd::prelude::*;

verus! {

/// The selected row of a table, if any. Row 0 is the header row.
pub struct TableCursor {
    pub selected: Option<usize>,
}

/// The selection after moving up: one row up, but not onto the header row.
pub open spec fn moved_up(selected: Option<usize>) -> Option<usize> {
    match selected {
        Some(s) => Some(if s <= 1 { 1usize } else { (s - 1) as usize }),
        None => None,
    }
}

/// The selection after moving down: one row down, but not past row `max`.
pub open spec fn moved_down(selected: Option<usize>, max: usize) -> Option<usize> {
    match selected {
        Some(s) => Some(if s < max { (s + 1) as usize } else { max }),
        None => None,
    }
}

/// The selection once the table is drawn with `rows` rows (header included):
/// a selection past the last row moves to it, and a table without rows has
/// no selection.
pub open spec fn clamped_to_rows(selected: Option<usize>, rows: usize) -> Option<usize> {
    if rows == 0 {
        None
    } else {
        match selected {
            Some(s) => if s >= rows { Some((rows - 1) as usize) } else { Some(s) },
            None => None,
        }
    }
}

impl TableCursor {
    /// A table with nothing selected.
    pub fn new() -> (t: TableCursor)
        ensures
            t.selected is None,
    {
        TableCursor { selected: None }
    }

    /// The selected row.
    pub fn selected(&self) -> (s: Option<usize>)
        ensures
            s == self.selected,
    {
        self.selected
    }

    /// Selects `index` (or nothing).
    pub fn select(&mut self, index: Option<usize>)
        ensures
            final(self).selected == index,
    {
        self.selected = index;
    }

    /// Keeps the selection on the rows of the drawn table (`rows` rows,
    /// header included), as drawing the table does.
    pub fn clamp_to_rows(&mut self, rows: usize)
        ensures
            final(self).selected == clamped_to_rows(old(self).selected, rows),
    {
        if let Some(s) = self.selected {
            if s >= rows {
                self.select(Some(rows.saturating_sub(1)));
            }
        }
        if rows == 0 {
            self.select(None);
        }
    }

    /// Moves the selection one row up, stopping at the first row under the header.
    pub fn up(&mut self)
        ensures
            final(self).selected == moved_up(old(self).selected),
    {
        let selected = match self.selected {
            Some(s) => {
                let t = s.saturating_sub(1);
                Some(if t < 1 { 1 } else { t })
            },
            None => None,
        };
        self.select(selected);
    }

    /// Moves the selection one row down, stopping at row `max`.
    pub fn down(&mut self, max: usize)
        ensures
            final(self).selected == moved_down(old(self).selected, max),
    {
        let selected = match self.selected {
            Some(s) => {
                let t = s.saturating_add(1);
                Some(if t < max { t } else { max })
            },
            None => None,
        };
        self.select(selected);
    }
}

/// Once a row under the header is selected, moving up or down keeps the
/// selection on a row in `1..=max` (for a table of at least one item).
pub proof fn lemma_selection_stays_in_rows(selected: usize, max: usize)
    requires
        1 <= selected <= max,
    ensures
        moved_up(Some(selected)) matches Some(s) && 1 <= s <= max,
        moved_down(Some(selected), max) matches Some(s) && 1 <= s <= max,
{
}

} // verus!
