use vstd::prelude::*;

verus! {

/// Optimization notes and the count of changes the optimizer made.
#[derive(Debug)]
pub struct OptNotes {
    notes: Vec<String>,
    verbose: bool,
    changes: u32,
}

impl OptNotes {
    /// The recorded notes, oldest first.
    pub closed spec fn recorded(&self) -> Seq<Seq<char>> {
        self.notes@.map_values(|s: String| s@)
    }

    /// Whether notes are recorded.
    pub closed spec fn is_verbose(&self) -> bool {
        self.verbose
    }

    /// How many changes were noted since the last reset.
    pub closed spec fn changes(&self) -> u32 {
        self.changes
    }

    /// No notes, not verbose, no changes.
    pub fn new() -> (r: OptNotes)
        ensures
            r.recorded() == Seq::<Seq<char>>::empty(),
            !r.is_verbose(),
            r.changes() == 0,
    {
        let r = OptNotes { notes: Vec::new(), verbose: false, changes: 0 };
        assert(r.notes@.map_values(|s: String| s@) =~= Seq::<Seq<char>>::empty());
        r
    }
}

/// Turns recording of note texts on or off.
pub fn set_verbose(state: &mut OptNotes, v: bool)
    ensures
        final(state).is_verbose() == v,
        final(state).recorded() == old(state).recorded(),
        final(state).changes() == old(state).changes(),
{
    state.verbose = v;
}

/// Notes one change; its text is kept only when verbose. The change count wraps
/// around at `u32::MAX`.
pub fn note(state: &mut OptNotes, msg: String)
    ensures
        final(state).changes() == old(state).changes().wrapping_add(1),
        final(state).is_verbose() == old(state).is_verbose(),
        final(state).recorded() == if old(state).is_verbose() {
            old(state).recorded().push(msg@)
        } else {
            old(state).recorded()
        },
{
    state.changes = state.changes.wrapping_add(1);
    if state.verbose {
        let ghost before = state.notes@;
        state.notes.push(msg);
        assert(state.notes@.map_values(|s: String| s@) =~= before.map_values(|s: String| s@).push(msg@));
    }
}

/// Takes the recorded notes, leaving none.
pub fn drain_notes(state: &mut OptNotes) -> (r: Vec<String>)
    ensures
        r@.map_values(|s: String| s@) == old(state).recorded(),
        final(state).recorded() == Seq::<Seq<char>>::empty(),
        final(state).is_verbose() == old(state).is_verbose(),
        final(state).changes() == old(state).changes(),
{
    let mut r: Vec<String> = Vec::new();
    std::mem::swap(&mut r, &mut state.notes);
    assert(state.notes@.map_values(|s: String| s@) =~= Seq::<Seq<char>>::empty());
    r
}

/// Sets the change count back to zero.
pub fn reset_changes(state: &mut OptNotes)
    ensures
        final(state).changes() == 0,
        final(state).recorded() == old(state).recorded(),
        final(state).is_verbose() == old(state).is_verbose(),
{
    state.changes = 0;
}

/// The number of changes noted since the last reset.
pub fn change_count(state: &OptNotes) -> (r: u32)
    ensures
        r == state.changes(),
{
    state.changes
}

} // verus!
