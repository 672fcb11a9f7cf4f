//! The protocol engine: the per-peer presence state machine.
//!
//! The engine owns the presence table. It consumes inbound payloads and
//! local events, and answers with the console line to display, the payload
//! to broadcast, and whether the event loop must begin termination. It
//! performs no I/O itself: the surrounding event loop publishes the
//! payloads and prints the lines.

use vstd::prelude::*;

use crate::codec::decode;
use crate::codec::encode;
use crate::codec::spec_decode;
use crate::codec::spec_encode;
use crate::codec::Message;
use crate::codec::MessageView;
use crate::table::PresenceTable;
use crate::text::in_room_suffix;
use crate::text::joined_suffix;
use crate::text::left_suffix;
use crate::text::separator;
use crate::text::spec_in_room_suffix;
use crate::text::spec_joined_suffix;
use crate::text::spec_left_suffix;
use crate::text::spec_separator;
use crate::text::spec_unknown_name;
use crate::text::unknown_name;
use crate::util::bytes_eq;
use crate::util::clone_bytes;
use crate::util::push_all;

verus! {

/// The engine's mathematical state: the local peer's identity, its
/// display name, and the presence table.
#[verifier::ext_equal]
pub struct EngineView {
    pub id: Seq<u8>,
    pub name: Seq<u8>,
    pub table: Map<Seq<u8>, Seq<u8>>,
}

/// What one inbound step asks of the engine's surroundings.
pub struct Effects {
    /// A console line to display, without a trailing newline.
    pub line: Option<Vec<u8>>,
    /// A payload to broadcast.
    pub broadcast: Option<Vec<u8>>,
}

/// The contents of an optional byte vector.
pub open spec fn opt_bytes(o: Option<Vec<u8>>) -> Option<Seq<u8>> {
    match o {
        Some(v) => Some(v@),
        None => None,
    }
}

/// The outcome one inbound step must have: the state after it and the
/// effects it asks for.
#[verifier::ext_equal]
pub struct StepOut {
    pub engine: EngineView,
    pub line: Option<Seq<u8>>,
    pub broadcast: Option<Seq<u8>>,
}

/// The console line for a chat message from `source`: the sender's
/// recorded name, or `Unknown` when none is recorded, then `: `, then the
/// text.
pub open spec fn spec_chat_line(
    table: Map<Seq<u8>, Seq<u8>>,
    source: Seq<u8>,
    text: Seq<u8>,
) -> Seq<u8> {
    (if table.contains_key(source) {
        table[source]
    } else {
        spec_unknown_name()
    }) + spec_separator() + text
}

/// The transition of the engine on one inbound payload from `source`.
///
/// - An unparseable payload is ignored silently: no state change, no
///   effect.
/// - A chat line never changes the table; it is displayed under the
///   sender's recorded name, or under `Unknown`.
/// - An arrival announcement records the sender (overwriting any earlier
///   entry) and replies with an introduction addressed to it; a departure
///   announcement removes the sender, whether or not it was present.
/// - An introduction addressed to this peer records the sender; one
///   addressed to anybody else is ignored entirely.
pub open spec fn spec_step(e: EngineView, source: Seq<u8>, payload: Seq<u8>) -> StepOut {
    match spec_decode(payload) {
        None => StepOut { engine: e, line: None, broadcast: None },
        Some(MessageView::Chat { text }) => StepOut {
            engine: e,
            line: Some(spec_chat_line(e.table, source, text)),
            broadcast: None,
        },
        Some(MessageView::Presence { name, joining }) => if joining {
            StepOut {
                engine: EngineView { id: e.id, name: e.name, table: e.table.insert(source, name) },
                line: Some(name + spec_joined_suffix()),
                broadcast: Some(
                    spec_encode(MessageView::Introduction { name: e.name, receiver: source }),
                ),
            }
        } else {
            StepOut {
                engine: EngineView { id: e.id, name: e.name, table: e.table.remove(source) },
                line: Some(name + spec_left_suffix()),
                broadcast: None,
            }
        },
        Some(MessageView::Introduction { name, receiver }) => if receiver == e.id {
            StepOut {
                engine: EngineView { id: e.id, name: e.name, table: e.table.insert(source, name) },
                line: Some(name + spec_in_room_suffix()),
                broadcast: None,
            }
        } else {
            StepOut { engine: e, line: None, broadcast: None }
        },
    }
}

/// A local event the event loop routes to the engine.
pub enum LocalEvent {
    /// The one-shot startup timer fired.
    Startup,
    /// The user typed a line.
    Input { text: Vec<u8> },
    /// The process received its shutdown signal.
    Shutdown,
}

/// The engine's answer to a local event.
pub struct Reaction {
    /// The payload to broadcast.
    pub broadcast: Vec<u8>,
    /// Whether the event loop must stop waiting for further events and
    /// begin termination.
    pub terminate: bool,
}

/// The protocol engine. It exclusively owns the presence table; the
/// local identity and display name are fixed for its lifetime.
pub struct Engine {
    id: Vec<u8>,
    name: Vec<u8>,
    table: PresenceTable,
}

impl View for Engine {
    type V = EngineView;

    closed spec fn view(&self) -> EngineView {
        EngineView { id: self.id@, name: self.name@, table: self.table@ }
    }
}

impl Engine {
    /// A valid engine: the table's peers are pairwise distinct.
    pub closed spec fn wf(&self) -> bool {
        self.table.wf()
    }

    /// A fresh engine for the local peer `id` with display name `name`,
    /// believing nobody present yet.
    pub fn new(id: Vec<u8>, name: Vec<u8>) -> (r: Engine)
        ensures
            r.wf(),
            r@.id == id@,
            r@.name == name@,
            r@.table == Map::<Seq<u8>, Seq<u8>>::empty(),
    {
        Engine { id, name, table: PresenceTable::new() }
    }

    /// The display name recorded for a remote peer, if any.
    pub fn lookup(&self, peer: &Vec<u8>) -> (r: Option<&Vec<u8>>)
        requires
            self.wf(),
        ensures
            match r {
                Some(name) => self@.table.contains_key(peer@) && self@.table[peer@] == name@,
                None => !self@.table.contains_key(peer@),
            },
    {
        self.table.lookup(peer)
    }

    /// The payload announcing this peer's arrival.
    pub fn announce_arrival(&self) -> (r: Vec<u8>)
        ensures
            r@ == spec_encode(MessageView::Presence { name: self@.name, joining: true }),
    {
        encode(&Message::Presence { name: clone_bytes(&self.name), joining: true })
    }

    /// The payload announcing this peer's departure.
    pub fn announce_departure(&self) -> (r: Vec<u8>)
        ensures
            r@ == spec_encode(MessageView::Presence { name: self@.name, joining: false }),
    {
        encode(&Message::Presence { name: clone_bytes(&self.name), joining: false })
    }

    /// The payload carrying a line of chat content.
    pub fn send_chat(&self, text: Vec<u8>) -> (r: Vec<u8>)
        ensures
            r@ == spec_encode(MessageView::Chat { text: text@ }),
    {
        encode(&Message::Chat { text })
    }

    /// Process one inbound payload from `source`: exactly the transition
    /// `spec_step` describes.
    pub fn handle_payload(&mut self, source: &Vec<u8>, payload: &Vec<u8>) -> (eff: Effects)
        requires
            old(self).wf(),
        ensures
            final(self).wf(),
            final(self)@ == spec_step(old(self)@, source@, payload@).engine,
            opt_bytes(eff.line) == spec_step(old(self)@, source@, payload@).line,
            opt_bytes(eff.broadcast) == spec_step(old(self)@, source@, payload@).broadcast,
    {
        match decode(payload) {
            None => Effects { line: None, broadcast: None },
            Some(Message::Chat { text }) => {
                let mut line: Vec<u8>;
                match self.table.lookup(source) {
                    Some(name) => {
                        line = clone_bytes(name);
                    },
                    None => {
                        line = unknown_name();
                    },
                }
                let sep = separator();
                push_all(&mut line, &sep);
                push_all(&mut line, &text);
                Effects { line: Some(line), broadcast: None }
            },
            Some(Message::Presence { name, joining }) => {
                if joining {
                    let mut line = clone_bytes(&name);
                    let suffix = joined_suffix();
                    push_all(&mut line, &suffix);
                    let reply = encode(
                        &Message::Introduction {
                            name: clone_bytes(&self.name),
                            receiver: clone_bytes(source),
                        },
                    );
                    self.table.upsert(clone_bytes(source), name);
                    proof {
                        assert(self@ =~= spec_step(old(self)@, source@, payload@).engine);
                    }
                    Effects { line: Some(line), broadcast: Some(reply) }
                } else {
                    let mut line = clone_bytes(&name);
                    let suffix = left_suffix();
                    push_all(&mut line, &suffix);
                    self.table.remove(source);
                    proof {
                        assert(self@ =~= spec_step(old(self)@, source@, payload@).engine);
                    }
                    Effects { line: Some(line), broadcast: None }
                }
            },
            Some(Message::Introduction { name, receiver }) => {
                if bytes_eq(&receiver, &self.id) {
                    let mut line = clone_bytes(&name);
                    let suffix = in_room_suffix();
                    push_all(&mut line, &suffix);
                    self.table.upsert(clone_bytes(source), name);
                    proof {
                        assert(self@ =~= spec_step(old(self)@, source@, payload@).engine);
                    }
                    Effects { line: Some(line), broadcast: None }
                } else {
                    Effects { line: None, broadcast: None }
                }
            },
        }
    }

    /// Route one local event: the startup timer announces arrival, a
    /// typed line becomes a chat message, and the shutdown signal
    /// announces departure and begins termination. None of these touches
    /// the presence table.
    pub fn handle_local(&self, event: LocalEvent) -> (r: Reaction)
        ensures
            match event {
                LocalEvent::Startup => r.broadcast@ == spec_encode(
                    MessageView::Presence { name: self@.name, joining: true },
                ) && !r.terminate,
                LocalEvent::Input { text } => r.broadcast@ == spec_encode(
                    MessageView::Chat { text: text@ },
                ) && !r.terminate,
                LocalEvent::Shutdown => r.broadcast@ == spec_encode(
                    MessageView::Presence { name: self@.name, joining: false },
                ) && r.terminate,
            },
    {
        match event {
            LocalEvent::Startup => Reaction { broadcast: self.announce_arrival(), terminate: false },
            LocalEvent::Input { text } => Reaction {
                broadcast: self.send_chat(text),
                terminate: false,
            },
            LocalEvent::Shutdown => Reaction {
                broadcast: self.announce_departure(),
                terminate: true,
            },
        }
    }
}

/// Receiving an arrival announcement `Presence { name, joining: true }`
/// from a peer records that name for the peer — whether or not it was
/// announced before — and enqueues exactly one introduction, addressed to
/// that peer and carrying this engine's own name.
pub proof fn lemma_arrival_records_and_introduces(
    e: EngineView,
    source: Seq<u8>,
    payload: Seq<u8>,
    n: Seq<u8>,
)
    requires
        spec_decode(payload) == Some(MessageView::Presence { name: n, joining: true }),
    ensures
        spec_step(e, source, payload).engine.table == e.table.insert(source, n),
        spec_step(e, source, payload).engine.table[source] == n,
        spec_step(e, source, payload).engine.id == e.id,
        spec_step(e, source, payload).engine.name == e.name,
        spec_step(e, source, payload).broadcast == Some(
            spec_encode(MessageView::Introduction { name: e.name, receiver: source }),
        ),
{
}

/// Receiving a departure announcement `Presence { joining: false }` from
/// a peer leaves no entry for that peer, whether or not it was present,
/// and enqueues nothing.
pub proof fn lemma_departure_removes(e: EngineView, source: Seq<u8>, payload: Seq<u8>, n: Seq<u8>)
    requires
        spec_decode(payload) == Some(MessageView::Presence { name: n, joining: false }),
    ensures
        spec_step(e, source, payload).engine.table == e.table.remove(source),
        !spec_step(e, source, payload).engine.table.contains_key(source),
        spec_step(e, source, payload).engine.id == e.id,
        spec_step(e, source, payload).engine.name == e.name,
        spec_step(e, source, payload).broadcast is None,
{
}

/// Receiving an introduction addressed to some other peer changes
/// nothing: no table mutation, no console line, no further message.
pub proof fn lemma_foreign_introduction_ignored(
    e: EngineView,
    source: Seq<u8>,
    payload: Seq<u8>,
    n: Seq<u8>,
    receiver: Seq<u8>,
)
    requires
        spec_decode(payload) == Some(MessageView::Introduction { name: n, receiver }),
        receiver != e.id,
    ensures
        spec_step(e, source, payload).engine == e,
        spec_step(e, source, payload).line is None,
        spec_step(e, source, payload).broadcast is None,
{
}

/// A payload that fits none of the three schemas has no engine-visible
/// effect: no state change, no console line, no reply.
pub proof fn lemma_unparseable_ignored(e: EngineView, source: Seq<u8>, payload: Seq<u8>)
    requires
        spec_decode(payload) is None,
    ensures
        spec_step(e, source, payload).engine == e,
        spec_step(e, source, payload).line is None,
        spec_step(e, source, payload).broadcast is None,
{
}

} // verus!
