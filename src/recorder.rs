//! The session and the start/stop state machine of a record trigger.
//!
//! A trigger without a token is idle; activating it starts a recording, whose
//! processor goes into the session's list and whose token goes onto the
//! trigger. Activating a trigger that carries a token stops that recording.
use crate::codec::{
    compression_of, info_of, reset_of, saved_of, session_codec, snapshot, CHANNELS, COMPRESSION_LEVEL, SAMPLE_RATE,
};
use crate::handles::{has_id, lookup, push_entry, remove_entry, HandleList, Ptr};
use crate::state::{state_from_token, token_of, RecordState, TokenError};
use adhoc_audio::AdhocCodec;
use vstd::prelude::*;

verus! {

/// Samples per block handed to the audio callback.
pub const BLOCK_SIZE: u32 = 1024;

/// What activating a trigger is to do.
#[derive(Clone, Copy, Debug, PartialEq, Eq, Structural)]
pub enum Activation {
    /// The trigger is idle: start a recording.
    Start,
    /// The trigger records with this processor: stop it.
    Stop(Ptr),
}

/// Why a trigger's token cannot be acted on.
#[derive(Clone, Copy, Debug, PartialEq, Eq, Structural)]
pub enum TriggerError {
    /// The token does not read back.
    Token(TokenError),
    /// The token reads back but says that no recording runs.
    NotRecording,
}

/// What activating a trigger that carries `token` (or none) is to do.
pub open spec fn activation_of(token: Option<Seq<char>>) -> Result<Activation, TriggerError> {
    match token {
        None => Ok(Activation::Start),
        Some(s) => match state_from_token(s) {
            Err(e) => Err(TriggerError::Token(e)),
            Ok(r) => if r.is_recording {
                Ok(Activation::Stop(r.processing_node))
            } else {
                Err(TriggerError::NotRecording)
            },
        },
    }
}

/// The token a trigger carries while it records with processor `p`.
pub open spec fn recording_token(p: Ptr) -> Seq<char> {
    token_of(RecordState { is_recording: true, processing_node: p })
}

/// Decides what activating a trigger does from the token it carries, if any.
/// A token that a started recording put there stops that recording.
pub fn activation(token: Option<&str>) -> (r: Result<Activation, TriggerError>)
    ensures
        r == activation_of(
            match token {
                Some(s) => Some(s@),
                None => None,
            },
        ),
        forall|p: Ptr|
            (token matches Some(s) && s@ == #[trigger] recording_token(p)) ==> r == Ok::<
                Activation,
                TriggerError,
            >(Activation::Stop(p)),
{
    match token {
        None => Ok(Activation::Start),
        Some(s) => match RecordState::from_string(s) {
            Err(e) => Err(TriggerError::Token(e)),
            Ok(state) => {
                if state.is_recording {
                    Ok(Activation::Stop(state.processing_node))
                } else {
                    Err(TriggerError::NotRecording)
                }
            },
        },
    }
}

/// The session: the codec that accumulates every captured block, and the
/// processors of the recordings that run.
pub struct AppState<H> {
    pub audio_codec: AdhocCodec,
    pub processor_list: HandleList<H>,
}

impl<H> AppState<H> {
    /// The processor list is well formed.
    pub open spec fn wf(&self) -> bool {
        self.processor_list.wf()
    }

    /// A fresh session: a codec at compression level 4 for 44100 Hz mono, and
    /// no processors.
    pub fn init() -> (r: Self)
        ensures
            r.wf(),
            r.processor_list@ == Seq::<(u64, H)>::empty(),
            compression_of(r.audio_codec) == COMPRESSION_LEVEL,
            info_of(r.audio_codec) == Some((SAMPLE_RATE, CHANNELS)),
    {
        AppState { audio_codec: session_codec(), processor_list: HandleList::new() }
    }

    /// Registers the processor of a new recording at the front of the list
    /// and returns its identifier with the token for its trigger. `None`, with
    /// the session unchanged, once identifiers have run out.
    pub fn start_recording(&mut self, processor: H) -> (r: Option<(Ptr, String)>)
        requires
            old(self).wf(),
        ensures
            final(self).wf(),
            final(self).audio_codec == old(self).audio_codec,
            old(self).processor_list.next_id() < u64::MAX <==> r is Some,
            r matches Some((p, token)) ==> {
                &&& !has_id(old(self).processor_list@, p.id)
                &&& final(self).processor_list@ == push_entry(
                    old(self).processor_list@,
                    p.id,
                    processor,
                )
                &&& token@ == recording_token(p)
            },
            r is None ==> final(self).processor_list@ == old(self).processor_list@,
    {
        match self.processor_list.push_front(processor) {
            Some(p) => {
                let state = RecordState { is_recording: true, processing_node: p };
                Some((p, state.to_string()))
            },
            None => None,
        }
    }

    /// Stops the recording with processor `p`: `detach` is applied to the
    /// processor while it is still in the list, so that its callback is
    /// detached before the processor leaves the list; the processor is then
    /// removed and handed back. Nothing happens when `p` is not in the list.
    pub fn stop_recording<F: Fn(&H)>(&mut self, p: Ptr, detach: F) -> (r: Option<H>)
        requires
            old(self).wf(),
            forall|h: &H| #[trigger] detach.requires((h,)),
        ensures
            final(self).wf(),
            final(self).audio_codec == old(self).audio_codec,
            final(self).processor_list@ == remove_entry(old(self).processor_list@, p.id),
            r == lookup(old(self).processor_list@, p.id),
            r matches Some(h) ==> detach.ensures((&h,), ()),
    {
        match self.processor_list.get(p) {
            Some(node) => detach(node),
            None => {
                return None;
            },
        }
        self.processor_list.remove_at(p)
    }

    /// The bytes of everything recorded so far, for upload; the codec is reset
    /// at once and takes new samples, with its stream info and compression
    /// level kept.
    pub fn submit(&mut self) -> (r: Option<Vec<u8>>)
        requires
            old(self).wf(),
        ensures
            final(self).wf(),
            final(self).processor_list == old(self).processor_list,
            r is Some,
            r is Some ==> r->0@ == saved_of(old(self).audio_codec),
            r is Some ==> final(self).audio_codec == reset_of(old(self).audio_codec),
            r is Some ==> r->0@.len() > 0,
            r is None ==> final(self).audio_codec == old(self).audio_codec,
            info_of(final(self).audio_codec) == info_of(old(self).audio_codec),
            compression_of(final(self).audio_codec) == compression_of(old(self).audio_codec),
    {
        snapshot(&mut self.audio_codec)
    }
}

} // verus!
