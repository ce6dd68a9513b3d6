//! The interactive staging loop: cursor movement and per-entry staging.

use vstd::prelude::*;
use crate::action::DedepAction;
use crate::package::DedepPackage;
use crate::package::display_of;
use crate::package::staged;

verus! {

/// A discrete operator input, after key decoding.
#[derive(Clone, Copy, Debug, PartialEq, Eq, Structural)]
pub enum InputEvent {
    /// Move the cursor one row up.
    MoveUp,
    /// Move the cursor one row down.
    MoveDown,
    /// Stage mark-explicit on the highlighted entry.
    StageExplicit,
    /// Leave the loop.
    Quit,
    /// A key with no binding; ignored.
    Other,
}

/// The event each key is bound to: `q` quits, `k` and `j` move the cursor up
/// and down, `E` stages mark-explicit, and every other key does nothing.
pub open spec fn key_event(key: char) -> InputEvent {
    if key == 'q' {
        InputEvent::Quit
    } else if key == 'k' {
        InputEvent::MoveUp
    } else if key == 'j' {
        InputEvent::MoveDown
    } else if key == 'E' {
        InputEvent::StageExplicit
    } else {
        InputEvent::Other
    }
}

/// Decode one pressed key into the input event it is bound to.
pub fn event_for_key(key: char) -> (ev: InputEvent)
    ensures
        ev == key_event(key),
{
    if key == 'q' {
        InputEvent::Quit
    } else if key == 'k' {
        InputEvent::MoveUp
    } else if key == 'j' {
        InputEvent::MoveDown
    } else if key == 'E' {
        InputEvent::StageExplicit
    } else {
        InputEvent::Other
    }
}

/// The row a move-down selects on a list of length `n > 0`: the first row when
/// nothing is selected, else one step down, stopping at the last row.
pub open spec fn down_target(cur: Option<usize>, n: nat) -> usize
    recommends
        n > 0,
{
    match cur {
        Option::None => 0,
        Option::Some(i) => if i + 1 < n {
            (i + 1) as usize
        } else {
            (n - 1) as usize
        },
    }
}

/// The row a move-up selects on a list of length `n > 0`: the last row when
/// nothing is selected, else one step up, stopping at the first row.
pub open spec fn up_target(cur: Option<usize>, n: nat) -> usize
    recommends
        n > 0,
{
    match cur {
        Option::None => (n - 1) as usize,
        Option::Some(i) => if i > 0 {
            (i - 1) as usize
        } else {
            0
        },
    }
}

/// The interactive staging controller: the displayed true-orphan list, fixed
/// in length for the run, and a cursor over it.
pub struct Controller {
    list: Vec<DedepPackage>,
    cursor: Option<usize>,
}

impl Controller {
    /// The displayed candidate list.
    pub closed spec fn entries_seq(&self) -> Seq<DedepPackage> {
        self.list@
    }

    /// The cursor: `None` while no row is highlighted.
    pub closed spec fn cursor_spec(&self) -> Option<usize> {
        self.cursor
    }

    /// Cursor validity: the cursor is unset or an in-bounds row index. Every
    /// controller operation preserves this, so after any finite sequence of
    /// inputs the cursor never dangles.
    pub open spec fn wf(&self) -> bool {
        self.cursor_spec() matches Some(i) ==> (i as int) < self.entries_seq().len()
    }

    /// Take over the candidate list with no row highlighted yet.
    pub fn new(list: Vec<DedepPackage>) -> (c: Controller)
        ensures
            c.entries_seq() == list@,
            c.cursor_spec() is None,
            c.wf(),
    {
        Controller { list, cursor: None }
    }

    /// Number of rows in the displayed list.
    pub fn len(&self) -> (n: usize)
        ensures
            n == self.entries_seq().len(),
    {
        self.list.len()
    }

    /// The currently highlighted row, if any.
    pub fn selected(&self) -> (cur: Option<usize>)
        ensures
            cur == self.cursor_spec(),
    {
        self.cursor
    }

    /// Read access to the entries, for rendering and for whatever executes
    /// the staged actions afterwards.
    pub fn entries(&self) -> (r: &Vec<DedepPackage>)
        ensures
            r@ == self.entries_seq(),
    {
        &self.list
    }

    /// Hand the staged entries back when the loop is over, consuming the
    /// controller.
    pub fn into_entries(self) -> (r: Vec<DedepPackage>)
        ensures
            r@ == self.entries_seq(),
    {
        self.list
    }

    /// The display line of every row, in order.
    pub fn display_lines(&self) -> (lines: Vec<String>)
        ensures
            lines@.len() == self.entries_seq().len(),
            forall|i: int|
                0 <= i < lines@.len() ==> (#[trigger] lines@[i])@ == display_of(
                    self.entries_seq()[i],
                ),
    {
        let mut lines: Vec<String> = Vec::new();
        let mut i: usize = 0;
        while i < self.list.len()
            invariant
                i <= self.list.len(),
                lines@.len() == i,
                forall|j: int|
                    0 <= j < i ==> (#[trigger] lines@[j])@ == display_of(self.entries_seq()[j]),
            decreases self.list.len() - i,
        {
            lines.push(self.list[i].display_line());
            i = i + 1;
        }
        lines
    }

    /// Apply one input event; the result says whether the loop is over.
    ///
    /// Quit ends the loop and changes nothing; moves leave the list alone and
    /// move the cursor, doing nothing on an empty list; stage-explicit
    /// overwrites the highlighted entry's action with `Explicit` and does
    /// nothing while no row is highlighted; an unbound key does nothing.
    pub fn step(&mut self, ev: InputEvent) -> (quit: bool)
        requires
            old(self).wf(),
        ensures
            final(self).wf(),
            quit == (ev is Quit),
            ev is Quit ==> *final(self) == *old(self),
            ev is Other ==> *final(self) == *old(self),
            (ev is MoveUp || ev is MoveDown) && old(self).entries_seq().len() == 0 ==> *final(self)
                == *old(self),
            ev is MoveDown && old(self).entries_seq().len() > 0 ==> {
                &&& final(self).entries_seq() == old(self).entries_seq()
                &&& final(self).cursor_spec() == Some(
                    down_target(old(self).cursor_spec(), old(self).entries_seq().len()),
                )
            },
            ev is MoveUp && old(self).entries_seq().len() > 0 ==> {
                &&& final(self).entries_seq() == old(self).entries_seq()
                &&& final(self).cursor_spec() == Some(
                    up_target(old(self).cursor_spec(), old(self).entries_seq().len()),
                )
            },
            ev is StageExplicit && old(self).cursor_spec() is None ==> *final(self) == *old(self),
            ev is StageExplicit ==> (old(self).cursor_spec() matches Some(i) ==> {
                &&& final(self).cursor_spec() == old(self).cursor_spec()
                &&& final(self).entries_seq() == old(self).entries_seq().update(
                    i as int,
                    staged(old(self).entries_seq()[i as int], DedepAction::Explicit),
                )
            }),
    {
        match ev {
            InputEvent::Quit => true,
            InputEvent::MoveDown => {
                let n = self.list.len();
                if n > 0 {
                    let target: usize = match self.cursor {
                        Option::None => 0,
                        Option::Some(i) => if i + 1 < n {
                            i + 1
                        } else {
                            n - 1
                        },
                    };
                    self.cursor = Some(target);
                }
                false
            },
            InputEvent::MoveUp => {
                let n = self.list.len();
                if n > 0 {
                    let target: usize = match self.cursor {
                        Option::None => n - 1,
                        Option::Some(i) => if i > 0 {
                            i - 1
                        } else {
                            0
                        },
                    };
                    self.cursor = Some(target);
                }
                false
            },
            InputEvent::StageExplicit => {
                if let Some(i) = self.cursor {
                    let entry = &mut self.list[i];
                    entry.stage_action(DedepAction::Explicit);
                }
                false
            },
            InputEvent::Other => false,
        }
    }
}

} // verus!
