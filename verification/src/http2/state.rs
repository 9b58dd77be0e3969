//! The small state machines of an HTTP/2 connection: the handshake, the
//! exchange of settings, the answer to pings and the farewell.

use vstd::prelude::*;
use algorithm::buf::Binary;
use crate::http1::io::{http2_magic, starts_with_magic};
use crate::consts::MAGIC_LEN;
use crate::http2::codec::{Codec, CodecView};
use crate::http2::frame::{Flag, Frame, FrameHeader, FrameView, Kind, Settings, StreamIdentifier};

verus! {

/// How far the handshake has come.
#[derive(Debug, Clone, Copy, PartialEq, Eq, Structural)]
pub struct StateHandshake {
    /// Whether this end is the client, which sends the preface.
    pub is_client: bool,
    /// Whether the preface is sent, or read and found in order.
    pub is_done: bool,
}

/// What a step of the handshake gave.
#[derive(Debug, Clone, Copy, PartialEq, Eq, Structural)]
pub enum Handshake {
    /// The handshake is done.
    Done,
    /// More bytes have to arrive.
    Pending,
    /// The peer did not start with the preface.
    Failed,
}

impl StateHandshake {
    /// The handshake of a server, not begun.
    pub fn new_server() -> (s: Self)
        ensures
            s == (StateHandshake { is_client: false, is_done: false }),
    {
        StateHandshake { is_client: false, is_done: false }
    }

    /// The handshake of a client, not begun.
    pub fn new_client() -> (s: Self)
        ensures
            s == (StateHandshake { is_client: true, is_done: false }),
    {
        StateHandshake { is_client: true, is_done: false }
    }

    /// Takes note that the handshake was done before this state came into
    /// being: the connection began as HTTP/1.1 and the preface is read.
    pub fn set_handshake_status(&mut self, _binary: Binary, is_client: bool)
        ensures
            *final(self) == (StateHandshake { is_client, is_done: true }),
    {
        self.is_client = is_client;
        self.is_done = true;
    }

    /// The handshake after a step, the codec after it, and what the step
    /// gave. A client puts the preface into the bytes to write. A server
    /// waits until the bytes read are as many as the preface, and takes the
    /// preface from them if they start with it.
    pub open spec fn handled(self, codec: CodecView) -> (StateHandshake, CodecView, Handshake) {
        if self.is_done {
            (self, codec, Handshake::Done)
        } else if self.is_client {
            (
                StateHandshake { is_done: true, ..self },
                CodecView { write: codec.write + http2_magic(), ..codec },
                Handshake::Done,
            )
        } else if codec.read.len() < MAGIC_LEN {
            (self, codec, Handshake::Pending)
        } else if !starts_with_magic(codec.read) {
            (self, codec, Handshake::Failed)
        } else {
            (
                StateHandshake { is_done: true, ..self },
                CodecView { read: codec.read.skip(MAGIC_LEN as int), ..codec },
                Handshake::Done,
            )
        }
    }

    /// One step of the handshake: see [`Self::handled`].
    pub fn poll_handle(&mut self, codec: &mut Codec) -> (r: Handshake)
        ensures
            *final(self) == old(self).handled(old(codec)@).0,
            final(codec)@ == old(self).handled(old(codec)@).1,
            r == old(self).handled(old(codec)@).2,
    {
        if self.is_done {
            return Handshake::Done;
        }
        if self.is_client {
            let magic: [u8; 24] = [
                80,
                82,
                73,
                32,
                42,
                32,
                72,
                84,
                84,
                80,
                47,
                50,
                46,
                48,
                13,
                10,
                13,
                10,
                83,
                77,
                13,
                10,
                13,
                10,
            ];
            proof {
                assert(magic@ =~= http2_magic());
            }
            codec.send_frame(&magic);
            self.is_done = true;
            return Handshake::Done;
        }
        match codec.take_preface() {
            Some(true) => {
                self.is_done = true;
                Handshake::Done
            },
            Some(false) => Handshake::Failed,
            None => Handshake::Pending,
        }
    }
}

/// How far the exchange of settings has come.
#[derive(Debug, Clone, Copy, PartialEq, Eq, Structural)]
pub struct StateSettings {
    /// The settings of this end.
    pub local: Settings,
    /// Whether they are sent.
    pub is_sent: bool,
    /// Whether the peer has acknowledged them.
    pub is_done: bool,
}

/// A frame with settings, for the connection.
pub open spec fn settings_frame(settings: Settings) -> FrameView {
    FrameView::Settings {
        header: FrameHeader {
            kind: Kind::Settings,
            flag: Flag { ack: settings.is_ack, ..Flag::zero_spec() },
            id: 0,
        },
        settings,
    }
}

fn make_settings_frame(settings: Settings) -> (f: Frame)
    ensures
        f@ == settings_frame(settings),
{
    Frame::Settings {
        header: FrameHeader::new(
            Kind::Settings,
            Flag { end_stream: false, end_headers: false, ack: settings.is_ack },
            0,
        ),
        settings,
    }
}

impl StateSettings {
    /// The exchange of the settings `local`, not begun.
    pub fn new(local: Settings) -> (s: Self)
        ensures
            s == (StateSettings { local, is_sent: false, is_done: false }),
    {
        StateSettings { local, is_sent: false, is_done: false }
    }

    /// Sets the settings of this end, and whether the exchange is over.
    pub fn set_settings(&mut self, local: Settings, is_done: bool)
        ensures
            *final(self) == (StateSettings { local, is_sent: is_done, is_done }),
    {
        self.local = local;
        self.is_sent = is_done;
        self.is_done = is_done;
    }

    /// Takes the exchange for over.
    pub fn set_settings_done(&mut self)
        ensures
            *final(self) == (StateSettings { is_sent: true, is_done: true, ..*old(self) }),
    {
        self.is_sent = true;
        self.is_done = true;
    }

    /// One step of the exchange: the settings of this end are to be sent,
    /// once. Returns the frame to send, if any, and whether the peer has yet
    /// to acknowledge.
    pub fn poll_handle(&mut self) -> (r: (Option<Frame>, bool))
        ensures
            *final(self) == (StateSettings { is_sent: true, ..*old(self) }),
            r.1 == !old(self).is_done,
            match r.0 {
                Some(frame) => !old(self).is_sent && frame@ == settings_frame(old(self).local),
                None => old(self).is_sent,
            },
    {
        let wait = !self.is_done;
        if self.is_sent {
            return (None, wait);
        }
        self.is_sent = true;
        (Some(make_settings_frame(self.local)), wait)
    }

    /// Takes in settings of the peer. An acknowledgement ends the exchange.
    /// Anything else is to be acknowledged: the frame to send is returned,
    /// and the settings are to be applied. Returns also whether the exchange
    /// is over.
    pub fn recv_setting(&mut self, settings: Settings) -> (r: (Option<Frame>, bool))
        ensures
            *final(self) == (StateSettings {
                is_done: old(self).is_done || settings.is_ack,
                ..*old(self)
            }),
            r.1 == final(self).is_done,
            match r.0 {
                Some(frame) => !settings.is_ack && frame@ == settings_frame(Settings::ack_spec()),
                None => settings.is_ack,
            },
    {
        if settings.is_ack {
            self.is_done = true;
            (None, true)
        } else {
            (Some(make_settings_frame(Settings::ack())), self.is_done)
        }
    }
}

/// A ping that waits for its answer.
#[derive(Debug, Clone, Copy, PartialEq, Eq, Structural)]
pub struct StatePingPong {
    /// What the ping held, if one is to be answered.
    pub pending: Option<u64>,
}

/// The answer to a ping that held `payload`.
pub open spec fn pong_frame(payload: u64) -> FrameView {
    FrameView::Ping {
        header: FrameHeader { kind: Kind::Ping, flag: Flag { ack: true, ..Flag::zero_spec() }, id: 0 },
        payload,
    }
}

impl StatePingPong {
    pub fn new() -> (s: Self)
        ensures
            s.pending is None,
    {
        StatePingPong { pending: None }
    }

    /// Takes in a ping of the peer: it is to be answered, unless it is an
    /// answer itself. A ping that comes before the last one is answered takes
    /// its place.
    pub fn receive(&mut self, ack: bool, payload: u64)
        ensures
            final(self).pending == if ack {
                old(self).pending
            } else {
                Some(payload)
            },
    {
        if !ack {
            self.pending = Some(payload);
        }
    }

    /// The answer to send, if a ping waits for one.
    pub fn poll_handle(&mut self) -> (r: Option<Frame>)
        ensures
            final(self).pending is None,
            match r {
                Some(frame) => old(self).pending is Some && frame@ == pong_frame(
                    old(self).pending->0,
                ),
                None => old(self).pending is None,
            },
    {
        match self.pending.take() {
            Some(payload) => Some(
                Frame::Ping {
                    header: FrameHeader::new(
                        Kind::Ping,
                        Flag { end_stream: false, end_headers: false, ack: true },
                        0,
                    ),
                    payload,
                },
            ),
            None => None,
        }
    }
}

/// The farewell of this end.
pub struct StateGoAway {
    /// The farewell that is to be sent.
    pending: Option<Frame>,
    /// The reason of the last farewell; no error before any.
    reason: u32,
}

/// A farewell that names the last stream and the reason.
pub open spec fn goaway_frame(last_stream_id: StreamIdentifier, reason: u32, debug: Seq<u8>) -> FrameView {
    FrameView::GoAway {
        header: FrameHeader { kind: Kind::GoAway, flag: Flag::zero_spec(), id: 0 },
        last_stream_id,
        reason,
        debug,
    }
}

impl StateGoAway {
    /// The farewell that waits to be sent.
    pub closed spec fn pending(&self) -> Option<FrameView> {
        match self.pending {
            Some(frame) => Some(frame@),
            None => None,
        }
    }

    /// The reason of the last farewell.
    pub closed spec fn last_reason(&self) -> u32 {
        self.reason
    }

    pub fn new() -> (s: Self)
        ensures
            s.pending() is None,
            s.last_reason() == crate::http2::frame::NO_ERROR,
    {
        StateGoAway { pending: None, reason: crate::http2::frame::NO_ERROR }
    }

    /// Says farewell: the frame is to be sent next, in place of one that
    /// waited.
    pub fn go_away_now(&mut self, last_stream_id: StreamIdentifier, reason: u32, debug: Vec<u8>)
        ensures
            final(self).pending() == Some(goaway_frame(last_stream_id, reason, debug@)),
            final(self).last_reason() == reason,
    {
        self.pending = Some(
            Frame::GoAway {
                header: FrameHeader::new(Kind::GoAway, Flag::zero(), 0),
                last_stream_id,
                reason,
                debug,
            },
        );
        self.reason = reason;
    }

    /// The reason of the last farewell.
    pub fn reason(&self) -> (r: &u32)
        ensures
            *r == self.last_reason(),
    {
        &self.reason
    }

    /// The farewell to send, if one waits, with its reason: the connection
    /// ends for that reason once the frame is sent.
    pub fn poll_handle(&mut self) -> (r: Option<(Frame, u32)>)
        ensures
            final(self).pending() is None,
            final(self).last_reason() == old(self).last_reason(),
            match r {
                Some((frame, reason)) => old(self).pending() == Some(frame@) && reason == old(
                    self,
                ).last_reason(),
                None => old(self).pending() is None,
            },
    {
        match self.pending.take() {
            Some(frame) => Some((frame, self.reason)),
            None => None,
        }
    }
}

} // verus!
