//! What the caller is asked to carry out after the registry has changed.

use vstd::prelude::*;
use crate::signaller_message::{MessageView, SignallerMessage};

verus! {

/// The text of one outbound frame.
#[derive(Debug, PartialEq, Eq)]
pub enum Payload {
    /// An inbound frame relayed as it came, character for character.
    Raw(String),
    /// A message that the server itself composed; the caller encodes it.
    Message(SignallerMessage),
}

pub enum PayloadView {
    Raw(Seq<char>),
    Message(MessageView),
}

impl View for Payload {
    type V = PayloadView;

    open spec fn view(&self) -> PayloadView {
        match *self {
            Payload::Raw(text) => PayloadView::Raw(text@),
            Payload::Message(message) => PayloadView::Message(message@),
        }
    }
}

/// One step for the caller, in the order in which the steps are to be taken.
#[derive(Debug, PartialEq, Eq)]
pub enum Effect {
    /// Put `payload` on the outbox numbered `to`.
    Send { to: u64, payload: Payload },
    /// A room was opened: the gauge of ongoing sessions goes up by one.
    SessionStarted,
    /// A room was closed after `duration` ticks of the caller's clock: the
    /// gauge goes down by one and the duration is observed.
    SessionEnded { duration: u64 },
    /// Ask the TURN vendor for ICE servers under `account_sid`, and answer
    /// the outbox numbered `reply_to` with what `ice_servers_reply` makes of it.
    QueryIceServers { account_sid: String, reply_to: u64 },
}

pub enum EffectView {
    Send { to: u64, payload: PayloadView },
    SessionStarted,
    SessionEnded { duration: u64 },
    QueryIceServers { account_sid: Seq<char>, reply_to: u64 },
}

impl View for Effect {
    type V = EffectView;

    open spec fn view(&self) -> EffectView {
        match *self {
            Effect::Send { to, payload } => EffectView::Send { to, payload: payload@ },
            Effect::SessionStarted => EffectView::SessionStarted,
            Effect::SessionEnded { duration } => EffectView::SessionEnded { duration },
            Effect::QueryIceServers { account_sid, reply_to } => EffectView::QueryIceServers {
                account_sid: account_sid@,
                reply_to,
            },
        }
    }
}

/// The views of a list of effects, in order.
pub open spec fn effect_views(effects: Seq<Effect>) -> Seq<EffectView> {
    effects.map_values(|e: Effect| e@)
}

} // verus!
