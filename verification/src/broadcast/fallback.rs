//! The fallback stream: the decisions about its address, its source and its
//! link to the mixer.
use vstd::prelude::*;
use crate::text::str_eq;
use super::item::ProbeReturn;

verus! {

/// What the fallback is doing.
#[derive(Debug, Clone, Copy, PartialEq, Eq, Structural)]
pub enum CurrentState {
    DoNothing,
    PlaySource,
    Retry,
    WaitForDecoderSrcPad,
    ChangeUri,
}

/// Which trouble the fallback is handling.
#[derive(Debug, Clone, Copy, PartialEq, Eq, Structural)]
pub enum ErrorState {
    NoError,
    WatchdogError,
    NetworkError,
}

/// Why a request to the fallback was refused.
#[derive(Debug, Clone, Copy, PartialEq, Eq, Structural)]
pub enum FallbackError {
    /// No address to play was ever given.
    UriUnset,
    /// The address given is the one already playing.
    UriNotChanged,
    /// A source is already set up.
    SourceAlreadySet,
    /// A source is set up but its pad is not known yet.
    SourcePadEmpty,
    /// The source could not be linked to the mixer.
    MixerNotConnected,
}

/// The state of the fallback stream.
pub struct State {
    pub uri: Option<String>,
    pub has_source: bool,
    pub has_source_pad: bool,
    pub has_mixer_connected: bool,
    pub current_state: CurrentState,
    pub error_state: ErrorState,
}

/// What to take down before a new source is started.
#[derive(Debug, Clone, Copy, PartialEq, Eq, Structural)]
pub struct TearDown {
    /// Stop the source and take it out of the bin.
    pub remove_source: bool,
    /// Give the mixer pad back.
    pub release_mixer_pad: bool,
}

/// The watchdog timeout in milliseconds while a source plays.
pub const WATCHDOG_TIMEOUT_MS: i32 = 6000;

impl State {
    /// A fallback with nothing to play.
    pub fn new() -> (r: State)
        ensures
            r.uri is None,
            !r.has_source,
            !r.has_source_pad,
            !r.has_mixer_connected,
            r.current_state == CurrentState::DoNothing,
            r.error_state == ErrorState::NoError,
    {
        State {
            uri: None,
            has_source: false,
            has_source_pad: false,
            has_mixer_connected: false,
            current_state: CurrentState::DoNothing,
            error_state: ErrorState::NoError,
        }
    }

    /// The watchdog timeout: on while a source plays, zero (off) otherwise.
    pub fn watchdog_timeout(enabled: bool) -> (r: i32)
        ensures
            r == if enabled {
                WATCHDOG_TIMEOUT_MS
            } else {
                0
            },
    {
        if enabled {
            WATCHDOG_TIMEOUT_MS
        } else {
            0
        }
    }

    /// The pipeline reported an error: retry after a watchdog error.
    pub fn triggered_error_from_bus(&mut self)
        ensures
            final(self).error_state == ErrorState::WatchdogError,
            final(self).current_state == CurrentState::Retry,
            final(self).uri == old(self).uri,
            final(self).has_source == old(self).has_source,
            final(self).has_source_pad == old(self).has_source_pad,
            final(self).has_mixer_connected == old(self).has_mixer_connected,
    {
        self.error_state = ErrorState::WatchdogError;
        self.current_state = CurrentState::Retry;
    }

    /// Takes the source down: it is removed if there is one, and the mixer
    /// pad is given back if it is linked.
    pub fn tear_down(&mut self) -> (r: TearDown)
        ensures
            r.remove_source == old(self).has_source,
            r.release_mixer_pad == old(self).has_mixer_connected,
            !final(self).has_source,
            !final(self).has_mixer_connected,
            final(self).has_source_pad == old(self).has_source_pad,
            final(self).uri == old(self).uri,
            final(self).current_state == old(self).current_state,
            final(self).error_state == old(self).error_state,
    {
        let r = TearDown {
            remove_source: self.has_source,
            release_mixer_pad: self.has_mixer_connected,
        };
        self.has_source = false;
        self.has_mixer_connected = false;
        r
    }

    /// Asks to play `uri`, or again the current address when `uri` is none.
    /// A new address is taken over; the same address again is refused, and so
    /// is a start with no address at all.
    pub fn start(&mut self, uri: Option<&str>) -> (r: Result<(), FallbackError>)
        ensures
            ({
                let changed = match uri {
                    Some(u) => !(old(self).uri matches Some(c) && c@ == u@),
                    None => false,
                };
                &&& changed ==> (final(self).uri matches Some(n) && n@ == uri->Some_0@)
                &&& changed ==> final(self).current_state == CurrentState::ChangeUri
                &&& !changed ==> final(self).uri == old(self).uri && final(self).current_state
                    == old(self).current_state
                &&& r == if final(self).uri is None {
                    Err::<(), FallbackError>(FallbackError::UriUnset)
                } else if !changed && uri is Some {
                    Err(FallbackError::UriNotChanged)
                } else {
                    Ok(())
                }
            }),
            final(self).has_source == old(self).has_source,
            final(self).has_source_pad == old(self).has_source_pad,
            final(self).has_mixer_connected == old(self).has_mixer_connected,
            final(self).error_state == old(self).error_state,
    {
        let uri_changed = match uri {
            Some(u) => {
                let change_uri = match &self.uri {
                    Some(current_uri) => !str_eq(current_uri.as_str(), u),
                    None => true,
                };
                if change_uri {
                    self.uri = Some(u.to_owned());
                    self.current_state = CurrentState::ChangeUri;
                }
                change_uri
            },
            None => false,
        };
        if self.uri.is_none() {
            return Err(FallbackError::UriUnset);
        }
        if !uri_changed && uri.is_some() {
            return Err(FallbackError::UriNotChanged);
        }
        Ok(())
    }

    /// Starts a source for the current address: refused without an address
    /// or while a source is set up; otherwise the source is set up and waits
    /// for its decoder pad.
    pub fn simple_start(&mut self) -> (r: Result<(), FallbackError>)
        ensures
            r == if old(self).uri is None {
                Err::<(), FallbackError>(FallbackError::UriUnset)
            } else if old(self).has_source {
                Err(FallbackError::SourceAlreadySet)
            } else {
                Ok(())
            },
            r is Ok ==> final(self).has_source && final(self).current_state
                == CurrentState::WaitForDecoderSrcPad && final(self).error_state
                == ErrorState::NoError,
            r is Err ==> final(self).has_source == old(self).has_source && final(self).current_state
                == old(self).current_state && final(self).error_state == old(self).error_state,
            final(self).uri == old(self).uri,
            final(self).has_source_pad == old(self).has_source_pad,
            final(self).has_mixer_connected == old(self).has_mixer_connected,
    {
        if self.uri.is_none() {
            return Err(FallbackError::UriUnset);
        }
        if self.has_source {
            return Err(FallbackError::SourceAlreadySet);
        }
        self.current_state = CurrentState::WaitForDecoderSrcPad;
        self.error_state = ErrorState::NoError;
        self.has_source = true;
        Ok(())
    }

    /// Whether the decoder's new pad still has to be linked to the mixer.
    pub fn needs_mixer(&self) -> (r: bool)
        ensures
            r == !self.has_mixer_connected,
    {
        !self.has_mixer_connected
    }

    /// The decoder made its pad; `mixer_linked` tells whether linking it to
    /// the mixer, where that was needed, worked. Then the source plays.
    pub fn pad_added_cb(&mut self, mixer_linked: bool) -> (r: Result<(), FallbackError>)
        ensures
            !old(self).has_mixer_connected && !mixer_linked ==> r == Err::<(), FallbackError>(
                FallbackError::MixerNotConnected,
            ) && final(self).has_mixer_connected == old(self).has_mixer_connected
                && final(self).has_source_pad == old(self).has_source_pad
                && final(self).current_state == old(self).current_state,
            old(self).has_mixer_connected || mixer_linked ==> r == Ok::<(), FallbackError>(())
                && final(self).has_mixer_connected && final(self).has_source_pad
                && final(self).current_state == CurrentState::PlaySource,
            final(self).uri == old(self).uri,
            final(self).has_source == old(self).has_source,
            final(self).error_state == old(self).error_state,
    {
        if !self.has_mixer_connected {
            if !mixer_linked {
                return Err(FallbackError::MixerNotConnected);
            }
            self.has_mixer_connected = true;
        }
        self.has_source_pad = true;
        self.current_state = CurrentState::PlaySource;
        Ok(())
    }

    /// Whether stopping the playback is to block the source pad and send the
    /// stream to its end: yes with a source and its pad, no without a
    /// source, refused with a source whose pad is unknown.
    pub fn stop_playback(&self) -> (r: Result<bool, FallbackError>)
        ensures
            r == if !self.has_source {
                Ok::<bool, FallbackError>(false)
            } else if !self.has_source_pad {
                Err(FallbackError::SourcePadEmpty)
            } else {
                Ok(true)
            },
    {
        if self.has_source {
            if !self.has_source_pad {
                return Err(FallbackError::SourcePadEmpty);
            }
            return Ok(true);
        }
        Ok(false)
    }

    /// An event reached the blocked source pad. At the end of the stream the
    /// source goes away with its pad (the mixer pad is given back, answer
    /// `true`, when it was linked) and the event is dropped.
    pub fn pad_eos_cb(&mut self, event_is_eos: bool) -> (r: (ProbeReturn, bool))
        requires
            event_is_eos ==> old(self).has_source && old(self).has_source_pad,
        ensures
            event_is_eos ==> r == (ProbeReturn::Drop, old(self).has_mixer_connected)
                && !final(self).has_source && !final(self).has_source_pad
                && !final(self).has_mixer_connected,
            !event_is_eos ==> r == (ProbeReturn::Pass, false) && final(self).has_source == old(
                self,
            ).has_source && final(self).has_source_pad == old(self).has_source_pad
                && final(self).has_mixer_connected == old(self).has_mixer_connected,
            final(self).uri == old(self).uri,
            final(self).current_state == old(self).current_state,
            final(self).error_state == old(self).error_state,
    {
        if event_is_eos {
            let release = self.has_mixer_connected;
            self.has_mixer_connected = false;
            self.has_source = false;
            self.has_source_pad = false;
            return (ProbeReturn::Drop, release);
        }
        (ProbeReturn::Pass, false)
    }

    /// The pipeline plays: the trouble is over.
    pub fn playing(&mut self)
        ensures
            final(self).error_state == ErrorState::NoError,
            final(self).uri == old(self).uri,
            final(self).has_source == old(self).has_source,
            final(self).has_source_pad == old(self).has_source_pad,
            final(self).has_mixer_connected == old(self).has_mixer_connected,
            final(self).current_state == old(self).current_state,
    {
        self.error_state = ErrorState::NoError;
    }
}

} // verus!
