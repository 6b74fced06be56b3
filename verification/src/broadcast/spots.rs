//! The life of a spot, an item played over the running programme.
use vstd::prelude::*;
use super::item::ProbeReturn;

verus! {

/// Where a spot stands in its life.
#[derive(Debug, Clone, Copy, PartialEq, Eq, Structural)]
pub enum ItemState {
    New,
    /// The decoder has loaded the spot.
    Prepared,
    /// The spot is playing.
    Activate,
    /// The spot is on its way to its end.
    GoingEOS,
    /// The spot has ended.
    Eos,
    /// The spot was ended by hand.
    EarlyEos,
    /// The spot ran into an error.
    Error,
    /// The spot is newly created and has no state yet.
    Unknown,
    /// The spot can be cleaned up.
    Removed,
}

/// A spot: what it plays, at which rate, and where it stands.
pub struct Item {
    pub uri: String,
    pub rate: Option<i32>,
    pub state: ItemState,
}

impl Item {
    /// A new spot for `location`.
    pub fn new(location: &str, rate: Option<i32>) -> (r: Item)
        ensures
            r.uri@ == location@,
            r.rate == rate,
            r.state == ItemState::Unknown,
    {
        Item { uri: location.to_owned(), rate, state: ItemState::Unknown }
    }

    /// The state of the spot.
    pub fn state(&self) -> (r: ItemState)
        ensures
            r == self.state,
    {
        self.state
    }

    /// Puts the spot into `state`.
    pub fn set_state(&mut self, state: ItemState)
        ensures
            final(self).state == state,
            final(self).uri == old(self).uri,
            final(self).rate == old(self).rate,
    {
        self.state = state;
    }

    /// An event reached the spot's queue. An end-of-stream event of a spot not
    /// ended by hand sends it on its way to the end, ends the spot break
    /// (answer `true`) and takes the probe away.
    pub fn pad_probe_going_eos(&mut self, event_is_eos: bool) -> (r: (ProbeReturn, bool))
        ensures
            if event_is_eos && old(self).state != ItemState::EarlyEos {
                final(self).state == ItemState::GoingEOS && r == (ProbeReturn::Remove, true)
            } else {
                final(self).state == old(self).state && r == (ProbeReturn::Pass, false)
            },
            final(self).uri == old(self).uri,
            final(self).rate == old(self).rate,
    {
        if event_is_eos && self.state != ItemState::EarlyEos {
            self.state = ItemState::GoingEOS;
            return (ProbeReturn::Remove, true);
        }
        (ProbeReturn::Pass, false)
    }

    /// An event reached the mixer side. The end of a spot that was going to
    /// its end makes it removable and takes the probe away.
    pub fn pad_probe_eos(&mut self, event_is_eos: bool) -> (r: ProbeReturn)
        ensures
            if event_is_eos && old(self).state == ItemState::GoingEOS {
                final(self).state == ItemState::Removed && r == ProbeReturn::Remove
            } else {
                final(self).state == old(self).state && r == ProbeReturn::Pass
            },
            final(self).uri == old(self).uri,
            final(self).rate == old(self).rate,
    {
        if event_is_eos && self.state == ItemState::GoingEOS {
            self.state = ItemState::Removed;
            return ProbeReturn::Remove;
        }
        ProbeReturn::Pass
    }
}

} // verus!
