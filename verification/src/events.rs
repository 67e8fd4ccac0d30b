//! Host events: a descriptor that becomes readable when a subscribed event
//! fires, and the registrations that feed it. Registering twice is the same
//! as registering once, and pending events coalesce into one notification.

use vstd::prelude::*;
use crate::channel::{accepts, answers, exchange};
use crate::command::Command;
use crate::error::Error;
use crate::reply::{decode_unit, decode_value, unit_reply, value_reply};
use crate::request::{encode_word_request, word_request};
use crate::wire::{put_word, signed_bits, to_bits, word_bytes};

verus! {

/// A set of event kinds, one bit each.
pub type WasiEvents = u32;

/// The number of event kinds.
pub const WASI_EVENTS_NUM: usize = 2;

/// The size in bytes of the mask that reading an event source yields.
pub const WASI_EVENTS_MASK_SIZE: usize = 4;

/// The terminal was resized.
pub const WASI_EVENT_WINCH: WasiEvents = 1;

/// The user asked to interrupt.
pub const WASI_EVENT_SIGINT: WasiEvents = 2;

/// Asks for a descriptor that becomes readable when an event of the mask
/// fires. Where terminal events are switched off the call fails with
/// `Unsupported` and the host is not called; otherwise the host is called
/// once and the result is the descriptor its reply carries.
pub fn event_source_fd<H: FnOnce(Vec<u8>) -> Vec<u8>>(
    host: H,
    enabled: bool,
    event_mask: WasiEvents,
) -> (r: Result<i32, Error>)
    requires
        enabled ==> accepts(host, word_request(Command::EventSourceFd, event_mask)),
    ensures
        !enabled ==> r == Err::<i32, Error>(Error::Unsupported),
        enabled ==> exists|reply: Seq<u8>|
            answers(host, word_request(Command::EventSourceFd, event_mask), reply) && r
                == value_reply(Command::EventSourceFd.spec_id(), reply),
{
    if !enabled {
        return Err(Error::Unsupported);
    }
    let reply = exchange(host, encode_word_request(Command::EventSourceFd, event_mask));
    decode_value(Command::EventSourceFd.id(), reply.as_slice())
}

/// Binds the delivery of interrupts to an event source. Where terminal
/// events are switched off the call fails with `Unsupported` and the host is
/// not called; otherwise the host is called once and the result is what its
/// reply says.
pub fn attach_sigint<H: FnOnce(Vec<u8>) -> Vec<u8>>(host: H, enabled: bool, fd: i32) -> (r: Result<
    (),
    Error,
>)
    requires
        enabled ==> accepts(host, word_request(Command::AttachSigint, signed_bits(fd))),
    ensures
        !enabled ==> r == Err::<(), Error>(Error::Unsupported),
        enabled ==> exists|reply: Seq<u8>|
            answers(host, word_request(Command::AttachSigint, signed_bits(fd)), reply) && r
                == unit_reply(Command::AttachSigint.spec_id(), reply),
{
    if !enabled {
        return Err(Error::Unsupported);
    }
    let reply = exchange(host, encode_word_request(Command::AttachSigint, to_bits(fd)));
    decode_unit(Command::AttachSigint.id(), reply.as_slice())
}

/// The state of an event source: the kinds it is subscribed to and the
/// kinds that fired since it was last read.
pub struct EventState {
    pub subscribed: WasiEvents,
    pub pending: WasiEvents,
}

impl EventState {
    /// The state after subscribing to the kinds of `mask`.
    pub open spec fn subscribe(self, mask: WasiEvents) -> EventState {
        EventState { subscribed: self.subscribed | mask, pending: self.pending }
    }

    /// The state after the host fired the kinds of `events`: those that are
    /// subscribed become pending, and one that was pending stays so.
    pub open spec fn notify(self, events: WasiEvents) -> EventState {
        EventState {
            subscribed: self.subscribed,
            pending: self.pending | (events & self.subscribed),
        }
    }

    /// The state after a read: nothing is pending.
    pub open spec fn drained(self) -> EventState {
        EventState { subscribed: self.subscribed, pending: 0 }
    }
}

/// An event source as the host keeps it for one descriptor.
#[derive(Debug)]
pub struct EventSource {
    subscribed: WasiEvents,
    pending: WasiEvents,
}

impl View for EventSource {
    type V = EventState;

    closed spec fn view(&self) -> EventState {
        EventState { subscribed: self.subscribed, pending: self.pending }
    }
}

impl EventSource {
    /// An event source that is subscribed to the kinds of `mask`, with
    /// nothing pending.
    pub fn new(mask: WasiEvents) -> (source: EventSource)
        ensures
            source@ == (EventState { subscribed: mask, pending: 0 }),
    {
        EventSource { subscribed: mask, pending: 0 }
    }

    /// Subscribes to the kinds of `mask`, in addition to those subscribed
    /// before.
    pub fn subscribe(&mut self, mask: WasiEvents)
        ensures
            final(self)@ == old(self)@.subscribe(mask),
    {
        self.subscribed = self.subscribed | mask;
    }

    /// Binds the delivery of interrupts to this source: it is subscribed to
    /// the interrupt kind from now on.
    pub fn attach_sigint(&mut self)
        ensures
            final(self)@ == old(self)@.subscribe(WASI_EVENT_SIGINT),
    {
        self.subscribed = self.subscribed | WASI_EVENT_SIGINT;
    }

    /// Records that the host fired the kinds of `events`.
    pub fn notify(&mut self, events: WasiEvents)
        ensures
            final(self)@ == old(self)@.notify(events),
    {
        self.pending = self.pending | (events & self.subscribed);
    }

    /// Whether the descriptor is readable: some kind is pending.
    pub fn readable(&self) -> (yes: bool)
        ensures
            yes == (self@.pending != 0),
    {
        self.pending != 0
    }

    /// Reads the source: the mask of the pending kinds, as the bytes of one
    /// word, and nothing is pending afterwards.
    pub fn read(&mut self) -> (payload: Vec<u8>)
        ensures
            payload@ == word_bytes(old(self)@.pending),
            payload@.len() == WASI_EVENTS_MASK_SIZE,
            final(self)@ == old(self)@.drained(),
    {
        let mut payload: Vec<u8> = Vec::new();
        put_word(&mut payload, self.pending);
        self.pending = 0;
        assert(payload@ =~= word_bytes(old(self)@.pending));
        payload
    }
}

/// Subscribing to a mask a second time changes nothing.
pub proof fn subscribe_idempotent(state: EventState, mask: WasiEvents)
    ensures
        state.subscribe(mask).subscribe(mask) == state.subscribe(mask),
{
    let s = state.subscribed;
    assert((s | mask) | mask == s | mask) by (bit_vector);
}

/// An event that fires once is delivered once, however often its kind was
/// subscribed: the read after it yields the event, and the read after that
/// yields nothing.
pub proof fn no_double_delivery(state: EventState, mask: WasiEvents, events: WasiEvents)
    requires
        state.pending == 0,
    ensures
        state.subscribe(mask).subscribe(mask).notify(events) == state.subscribe(mask).notify(
            events,
        ),
        state.subscribe(mask).subscribe(mask).notify(events).pending == events & (state.subscribed
            | mask),
        state.subscribe(mask).subscribe(mask).notify(events).drained().pending == 0,
{
    subscribe_idempotent(state, mask);
    let s = state.subscribed;
    assert(0u32 | (events & (s | mask)) == events & (s | mask)) by (bit_vector);
}

/// Events that fire before a read coalesce: firing two sets one after the
/// other leaves pending what firing their union leaves.
pub proof fn notifications_coalesce(state: EventState, first: WasiEvents, second: WasiEvents)
    ensures
        state.notify(first).notify(second) == state.notify(first | second),
{
    let p = state.pending;
    let s = state.subscribed;
    assert((p | (first & s)) | (second & s) == p | ((first | second) & s)) by (bit_vector);
}

} // verus!
