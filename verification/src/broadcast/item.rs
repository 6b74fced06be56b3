//! The life of a queued item, from creation to removal.
use vstd::prelude::*;

verus! {

/// Where an item stands in its life.
#[derive(Debug, Clone, Copy, PartialEq, Eq, Structural)]
pub enum ItemState {
    New,
    /// The decoder has loaded the item and made all its pads.
    Prepared,
    /// The item is the one playing.
    Activate,
    /// The item is on its way to its end; time to load the next one.
    GoingEOS,
    /// The item has ended.
    Eos,
    /// The item was ended by hand.
    EarlyEos,
    /// The item is newly created and has no state yet.
    Unknown,
    /// The item can be taken out of the queue.
    Removed,
}

/// What a pad probe answers.
#[derive(Debug, Clone, Copy, PartialEq, Eq, Structural)]
pub enum ProbeReturn {
    /// Leave the probe in place and let the data pass.
    Pass,
    /// Take the probe away.
    Remove,
    /// Drop the data.
    Drop,
}

/// What the broadcast is to do when an item is going to its end.
#[derive(Debug, Clone, Copy, PartialEq, Eq, Structural)]
pub enum EndAction {
    /// Nothing.
    Nothing,
    /// End the spot break.
    EndOfSpot,
    /// Cross-fade into the next item.
    ScheduleCrossfade,
}

/// An item of the play queue: what it plays and where it stands.
pub struct Item {
    pub uri: String,
    pub state: ItemState,
    /// A fixed length in seconds; zero for the item's own length.
    pub max_duration: u32,
    pub is_spot: bool,
}

impl Item {
    /// A new item for `location`; `fixed_length` bounds endless streams.
    pub fn new(location: &str, fixed_length: Option<u32>, is_spot: bool) -> (r: Item)
        ensures
            r.uri@ == location@,
            r.state == ItemState::Unknown,
            r.max_duration == match fixed_length {
                Some(l) => l,
                None => 0,
            },
            r.is_spot == is_spot,
    {
        Item {
            uri: location.to_owned(),
            state: ItemState::Unknown,
            max_duration: match fixed_length {
                Some(l) => l,
                None => 0,
            },
            is_spot,
        }
    }

    /// The state of the item.
    pub fn state(&self) -> (r: ItemState)
        ensures
            r == self.state,
    {
        self.state
    }

    /// Puts the item into `state`.
    pub fn set_state(&mut self, state: ItemState)
        ensures
            final(self).state == state,
            final(self).uri == old(self).uri,
            final(self).max_duration == old(self).max_duration,
            final(self).is_spot == old(self).is_spot,
    {
        self.state = state;
    }

    /// The decoder made its last pad: the item is prepared.
    pub fn no_more_pads(&mut self)
        ensures
            final(self).state == ItemState::Prepared,
            final(self).uri == old(self).uri,
            final(self).max_duration == old(self).max_duration,
            final(self).is_spot == old(self).is_spot,
    {
        self.state = ItemState::Prepared;
    }

    /// An event reached the cross-fade queue. An end-of-stream event of an
    /// item not ended by hand sends it on its way to the end and takes the
    /// probe away; a spot then ends the spot break, another item cross-fades.
    pub fn pad_probe_going_eos(&mut self, event_is_eos: bool) -> (r: (ProbeReturn, EndAction))
        ensures
            if event_is_eos && old(self).state != ItemState::EarlyEos {
                &&& final(self).state == ItemState::GoingEOS
                &&& r == (ProbeReturn::Remove, if old(self).is_spot {
                    EndAction::EndOfSpot
                } else {
                    EndAction::ScheduleCrossfade
                })
            } else {
                &&& final(self).state == old(self).state
                &&& r == (ProbeReturn::Pass, EndAction::Nothing)
            },
            final(self).uri == old(self).uri,
            final(self).max_duration == old(self).max_duration,
            final(self).is_spot == old(self).is_spot,
    {
        if event_is_eos && self.state != ItemState::EarlyEos {
            self.state = ItemState::GoingEOS;
            if self.is_spot {
                return (ProbeReturn::Remove, EndAction::EndOfSpot);
            } else {
                return (ProbeReturn::Remove, EndAction::ScheduleCrossfade);
            }
        }
        (ProbeReturn::Pass, EndAction::Nothing)
    }

    /// An event reached the mixer side. The end of an item that was going
    /// to its end makes it removable and takes the probe away.
    pub fn pad_probe_eos(&mut self, event_is_eos: bool) -> (r: ProbeReturn)
        ensures
            if event_is_eos && old(self).state == ItemState::GoingEOS {
                final(self).state == ItemState::Removed && r == ProbeReturn::Remove
            } else {
                final(self).state == old(self).state && r == ProbeReturn::Pass
            },
            final(self).uri == old(self).uri,
            final(self).max_duration == old(self).max_duration,
            final(self).is_spot == old(self).is_spot,
    {
        if event_is_eos && self.state == ItemState::GoingEOS {
            self.state = ItemState::Removed;
            return ProbeReturn::Remove;
        }
        ProbeReturn::Pass
    }

    /// A buffer passed after an early end was asked for: the item goes to its
    /// end (and an end-of-stream event is pushed).
    pub fn pad_probe_when_eos(&mut self) -> (r: ProbeReturn)
        ensures
            final(self).state == ItemState::GoingEOS,
            r == ProbeReturn::Pass,
            final(self).uri == old(self).uri,
            final(self).max_duration == old(self).max_duration,
            final(self).is_spot == old(self).is_spot,
    {
        self.state = ItemState::GoingEOS;
        ProbeReturn::Pass
    }

    /// Ends the item by hand; an item that is no spot cross-fades at once.
    pub fn prepare_for_early_end(&mut self) -> (r: EndAction)
        ensures
            final(self).state == ItemState::EarlyEos,
            r == if old(self).is_spot {
                EndAction::Nothing
            } else {
                EndAction::ScheduleCrossfade
            },
            final(self).uri == old(self).uri,
            final(self).max_duration == old(self).max_duration,
            final(self).is_spot == old(self).is_spot,
    {
        self.state = ItemState::EarlyEos;
        if self.is_spot {
            EndAction::Nothing
        } else {
            EndAction::ScheduleCrossfade
        }
    }
}

} // verus!
