//! The client's local view: the messages it has seen, the order in which it
//! saw them, and what it knows of its own identity.

use crate::client::{ClientChatPacket, ClientChatView, ClientPacket, ClientPacketView};
use crate::clock::{Timestamp, SECOND};
use crate::ident::{hyphenated, id_text};
use crate::server::{ServerChatPacket, ServerChatView, ServerPacket, ServerPacketView};
use crate::text::push_text;
use std::collections::HashMap;
use vstd::prelude::*;
use vstd::string::StringExecFns;

verus! {

broadcast use vstd::std_specs::hash::group_hash_axioms;

/// What the client knows of its own identity.
#[derive(Debug, Clone, Copy, PartialEq, Eq, Structural)]
pub enum SelfUuid {
    /// The server has told.
    Resolved(u128),
    /// The server was asked at this moment of the session clock.
    Pending(u64),
    /// Nothing is known and nothing was asked.
    Unknown,
}

/// An entry of the history: which message, and when it arrived here.
#[derive(Debug, Clone, Copy, PartialEq, Eq)]
pub struct Message {
    pub sender_id: u128,
    pub message_id: u128,
    pub timestamp: Timestamp,
}

/// A line of the rendered history.
#[derive(Debug, Clone, PartialEq, Eq)]
pub enum HistoryLine {
    /// The empty line above a group of messages.
    Blank,
    /// The head of a group: who wrote, and when the first message shown
    /// under it arrived.
    Header { sender_id: u128, timestamp: Timestamp },
    /// The text of a message.
    Body(String),
}

/// A line as a value.
pub enum HistoryLineView {
    Blank,
    Header { sender_id: u128, timestamp: Timestamp },
    Body(Seq<char>),
}

impl View for HistoryLine {
    type V = HistoryLineView;

    open spec fn view(&self) -> HistoryLineView {
        match *self {
            HistoryLine::Blank => HistoryLineView::Blank,
            HistoryLine::Header { sender_id, timestamp } => HistoryLineView::Header {
                sender_id,
                timestamp,
            },
            HistoryLine::Body(text) => HistoryLineView::Body(text@),
        }
    }
}

/// What to tell the user of a message that arrived.
#[derive(Debug, Clone, PartialEq, Eq)]
pub struct Notice {
    pub summary: String,
    pub body: String,
}

/// What a tick leaves for its caller to do.
pub struct TickOutcome {
    /// To be shown as a desktop notification.
    pub notify: Option<Notice>,
    /// To be sent to the server.
    pub request: Option<ClientPacket>,
}

/// The local view as a value.
pub struct StoreModel {
    /// The text of each message, by sender and message.
    pub bodies: Map<(u128, u128), Seq<char>>,
    /// The messages in the order in which they arrived.
    pub history: Seq<Message>,
    pub identity: SelfUuid,
}

/// The local view.
pub struct Store {
    messages: Vec<Message>,
    all_messages: HashMap<u128, HashMap<u128, String>>,
    self_id: SelfUuid,
}

/// The two-level table as one map from sender and message to text.
pub open spec fn bodies_of(all: Map<u128, HashMap<u128, String>>) -> Map<(u128, u128), Seq<char>> {
    Map::new(
        |k: (u128, u128)| all.contains_key(k.0) && all[k.0]@.contains_key(k.1),
        |k: (u128, u128)| all[k.0]@[k.1]@,
    )
}

/// The view after a packet of the server that arrived at `received_at`.
///
/// A new message is filed under its sender and its own identifier, in place
/// of whatever was filed there, and is appended to the history: a message
/// that arrives twice is filed once and listed twice. The server's word on
/// the client's identity resolves it, whatever was known before. Every
/// other packet leaves the view as it is.
pub open spec fn applied(m: StoreModel, packet: ServerPacketView, received_at: Timestamp)
    -> StoreModel {
    match packet {
        ServerPacketView::Chat(ServerChatView::NewMessage { sender_id, message_id, message }) => {
            StoreModel {
                bodies: m.bodies.insert((sender_id, message_id), message),
                history: m.history.push(Message { sender_id, message_id, timestamp: received_at }),
                identity: m.identity,
            }
        },
        ServerPacketView::Chat(ServerChatView::SelfMember { member_id }) => StoreModel {
            identity: SelfUuid::Resolved(member_id),
            ..m
        },
        _ => m,
    }
}

/// Whether a request that was made at `since` has waited a second at `now`.
pub open spec fn overdue(since: u64, now: u64) -> bool {
    now >= since && now - since >= SECOND
}

/// What the client does about its identity at the time `now`: with nothing
/// known, or with a request that has waited a second, it asks, and is
/// pending from now; otherwise it waits. The flag tells whether it asks.
pub open spec fn driven(identity: SelfUuid, now: u64) -> (SelfUuid, bool) {
    match identity {
        SelfUuid::Unknown => (SelfUuid::Pending(now), true),
        SelfUuid::Pending(since) => if overdue(since, now) {
            (SelfUuid::Pending(now), true)
        } else {
            (identity, false)
        },
        SelfUuid::Resolved(_) => (identity, false),
    }
}

/// The notification for a packet, given what was known of the client's
/// identity when it arrived: a new message of anybody but the client itself
/// is announced under the summary `Message`, with the sender, a colon, a
/// line break and the text.
pub open spec fn notice_for(identity: SelfUuid, packet: ServerPacketView) -> Option<
    (Seq<char>, Seq<char>),
> {
    match packet {
        ServerPacketView::Chat(ServerChatView::NewMessage { sender_id, message_id, message }) => {
            if identity == SelfUuid::Resolved(sender_id) {
                None
            } else {
                Some(("Message"@, hyphenated(sender_id) + ":\n"@ + message))
            }
        },
        _ => None,
    }
}

/// The request that asks the server for the client's identity.
pub open spec fn identity_request() -> ClientPacketView {
    ClientPacketView::Chat(ClientChatView::RequestSelfMember)
}

/// A tick as a value: the view afterwards, the notification, and whether
/// the server is asked for the client's identity. The packet, if there is
/// one, is applied first; the identity is driven after it.
pub open spec fn ticked(
    m: StoreModel,
    incoming: Option<ServerPacketView>,
    now: u64,
    received_at: Timestamp,
) -> (StoreModel, Option<(Seq<char>, Seq<char>)>, bool) {
    let after = match incoming {
        Some(p) => applied(m, p, received_at),
        None => m,
    };
    let notice = match incoming {
        Some(p) => notice_for(m.identity, p),
        None => None,
    };
    let (identity, asks) = driven(after.identity, now);
    (StoreModel { identity, ..after }, notice, asks)
}

/// The history as it is shown, newest message first.
///
/// Messages are taken from the newest to the oldest. One whose text is no
/// longer on file is passed over. Above each message whose sender differs
/// from the sender of the message shown before it (`last`) stand an empty
/// line and a header.
pub open spec fn rendered(
    history: Seq<Message>,
    bodies: Map<(u128, u128), Seq<char>>,
    last: Option<u128>,
) -> Seq<HistoryLineView>
    decreases history.len(),
{
    if history.len() == 0 {
        Seq::empty()
    } else {
        let m = history.last();
        let older = history.drop_last();
        if bodies.contains_key((m.sender_id, m.message_id)) {
            let head = if last == Some(m.sender_id) {
                Seq::<HistoryLineView>::empty()
            } else {
                seq![
                    HistoryLineView::Blank,
                    HistoryLineView::Header { sender_id: m.sender_id, timestamp: m.timestamp },
                ]
            };
            head + seq![HistoryLineView::Body(bodies[(m.sender_id, m.message_id)])] + rendered(
                older,
                bodies,
                Some(m.sender_id),
            )
        } else {
            rendered(older, bodies, last)
        }
    }
}

/// Lines as values, line by line.
pub open spec fn lines_view(lines: Seq<HistoryLine>) -> Seq<HistoryLineView> {
    Seq::new(lines.len(), |i: int| lines[i]@)
}

impl SelfUuid {
    /// The identity as it stands in the title.
    pub open spec fn label(self) -> Seq<char> {
        match self {
            SelfUuid::Resolved(id) => hyphenated(id),
            SelfUuid::Pending(_) => "name pending"@,
            SelfUuid::Unknown => "name none"@,
        }
    }

    /// The identity as it stands in the title.
    pub fn to_text(&self) -> (text: String)
        ensures
            text@ == self.label(),
    {
        match self {
            SelfUuid::Resolved(id) => id_text(*id),
            SelfUuid::Pending(_) => String::from_str("name pending"),
            SelfUuid::Unknown => String::from_str("name none"),
        }
    }
}

impl Store {
    /// The view as a value.
    pub closed spec fn model(&self) -> StoreModel {
        StoreModel {
            bodies: bodies_of(self.all_messages@),
            history: self.messages@,
            identity: self.self_id,
        }
    }

    /// The view of a client that has seen nothing yet.
    pub fn new() -> (s: Store)
        ensures
            s.model().bodies == Map::<(u128, u128), Seq<char>>::empty(),
            s.model().history == Seq::<Message>::empty(),
            s.model().identity == SelfUuid::Unknown,
    {
        let s = Store {
            messages: Vec::new(),
            all_messages: HashMap::new(),
            self_id: SelfUuid::Unknown,
        };
        assert(bodies_of(s.all_messages@) =~= Map::<(u128, u128), Seq<char>>::empty());
        s
    }

    /// What is known of the client's identity.
    pub fn self_id(&self) -> (id: SelfUuid)
        ensures
            id == self.model().identity,
    {
        self.self_id
    }

    /// The history, oldest entry first.
    pub fn messages(&self) -> (h: &Vec<Message>)
        ensures
            h@ == self.model().history,
    {
        &self.messages
    }

    /// The text on file for a message, if there is one.
    pub fn message(&self, sender_id: u128, message_id: u128) -> (text: Option<&String>)
        ensures
            match text {
                Some(t) => self.model().bodies.contains_key((sender_id, message_id))
                    && self.model().bodies[(sender_id, message_id)] == t@,
                None => !self.model().bodies.contains_key((sender_id, message_id)),
            },
    {
        match self.all_messages.get(&sender_id) {
            Some(of_sender) => of_sender.get(&message_id),
            None => None,
        }
    }

    /// Takes in a packet of the server that arrived at `received_at`.
    pub fn apply(&mut self, packet: ServerPacket, received_at: Timestamp)
        ensures
            final(self).model() == applied(old(self).model(), packet@, received_at),
    {
        match packet {
            ServerPacket::Chat(ServerChatPacket::NewMessage { sender_id, message_id, message }) => {
                let ghost before = self.all_messages@;
                let ghost text = message@;
                let mut of_sender = match self.all_messages.remove(&sender_id) {
                    Some(m) => m,
                    None => HashMap::new(),
                };
                let ghost inner_before = of_sender@;
                of_sender.insert(message_id, message);
                self.all_messages.insert(sender_id, of_sender);
                self.messages.push(Message { sender_id, message_id, timestamp: received_at });
                proof {
                    let now = self.all_messages@;
                    assert(before.contains_key(sender_id) ==> inner_before == before[sender_id]@);
                    assert(!before.contains_key(sender_id) ==> inner_before == Map::<
                        u128,
                        String,
                    >::empty());
                    assert(now[sender_id]@ == inner_before.insert(message_id, message));
                    assert(bodies_of(now) =~= bodies_of(before).insert(
                        (sender_id, message_id),
                        text,
                    )) by {
                        assert forall|k: (u128, u128)|
                            bodies_of(now).contains_key(k) <==> #[trigger] bodies_of(before).insert(
                                (sender_id, message_id),
                                text,
                            ).contains_key(k) by {
                            if k.0 != sender_id {
                                assert(now.contains_key(k.0) <==> before.contains_key(k.0));
                            }
                        }
                        assert forall|k: (u128, u128)| #[trigger]
                            bodies_of(now).contains_key(k) implies bodies_of(now)[k] == bodies_of(
                            before,
                        ).insert((sender_id, message_id), text)[k] by {
                            if k.0 != sender_id {
                                assert(now[k.0] == before[k.0]);
                            }
                        }
                    }
                }
            },
            ServerPacket::Chat(ServerChatPacket::SelfMember { member_id }) => {
                self.self_id = SelfUuid::Resolved(member_id);
            },
            _ => {},
        }
    }

    /// Looks after the client's identity at the time `now`, and says
    /// whether the server is to be asked for it.
    pub fn drive(&mut self, now: u64) -> (asks: bool)
        ensures
            final(self).model().identity == driven(old(self).model().identity, now).0,
            asks == driven(old(self).model().identity, now).1,
            final(self).model().bodies == old(self).model().bodies,
            final(self).model().history == old(self).model().history,
    {
        match self.self_id {
            SelfUuid::Unknown => {
                self.self_id = SelfUuid::Pending(now);
                true
            },
            SelfUuid::Pending(since) => {
                if now >= since && now - since >= SECOND {
                    self.self_id = SelfUuid::Pending(now);
                    true
                } else {
                    false
                }
            },
            SelfUuid::Resolved(_) => false,
        }
    }

    /// One tick at the time `now`: takes in the packet that is waiting, if
    /// one is, and looks after the client's identity.
    pub fn tick_at(&mut self, incoming: Option<ServerPacket>, now: u64, received_at: Timestamp) -> (out:
        TickOutcome)
        ensures
            ({
                let incoming_view = match incoming {
                    Some(p) => Some(p@),
                    None => None,
                };
                let t = ticked(old(self).model(), incoming_view, now, received_at);
                &&& final(self).model() == t.0
                &&& match out.notify {
                    Some(n) => t.1 == Some((n.summary@, n.body@)),
                    None => t.1 is None,
                }
                &&& match out.request {
                    Some(r) => t.2 && r@ == identity_request(),
                    None => !t.2,
                }
            }),
    {
        let mut notify: Option<Notice> = None;
        match incoming {
            Some(packet) => {
                notify = self.notice(&packet);
                self.apply(packet, received_at);
            },
            None => {},
        }
        let asks = self.drive(now);
        let request = if asks {
            Some(ClientPacket::Chat(ClientChatPacket::RequestSelfMember))
        } else {
            None
        };
        TickOutcome { notify, request }
    }

    /// The notification that a packet calls for, before it is applied.
    pub fn notice(&self, packet: &ServerPacket) -> (n: Option<Notice>)
        ensures
            match n {
                Some(n) => notice_for(self.model().identity, packet@) == Some(
                    (n.summary@, n.body@),
                ),
                None => notice_for(self.model().identity, packet@) is None,
            },
    {
        match packet {
            ServerPacket::Chat(ServerChatPacket::NewMessage { sender_id, message_id, message }) => {
                let own = match self.self_id {
                    SelfUuid::Resolved(me) => me == *sender_id,
                    _ => false,
                };
                if own {
                    None
                } else {
                    let mut body = id_text(*sender_id);
                    push_text(&mut body, ":\n");
                    push_text(&mut body, message.as_str());
                    Some(Notice { summary: String::from_str("Message"), body })
                }
            },
            _ => None,
        }
    }

    /// The history as it is shown, newest message first.
    pub fn history_lines(&self) -> (lines: Vec<HistoryLine>)
        ensures
            lines_view(lines@) == rendered(self.model().history, self.model().bodies, None),
    {
        let mut lines: Vec<HistoryLine> = Vec::new();
        let mut last: Option<u128> = None;
        let mut i: usize = self.messages.len();
        assert(self.messages@.take(i as int) =~= self.messages@);
        assert(lines_view(lines@) =~= Seq::<HistoryLineView>::empty());
        while i > 0
            invariant
                i <= self.messages@.len(),
                rendered(self.messages@, bodies_of(self.all_messages@), None) == lines_view(lines@)
                    + rendered(self.messages@.take(i as int), bodies_of(self.all_messages@), last),
            decreases i,
        {
            let ghost shown = lines_view(lines@);
            let ghost upto = self.messages@.take(i as int);
            i = i - 1;
            let m = self.messages[i];
            assert(upto.last() == m);
            assert(upto.drop_last() =~= self.messages@.take(i as int));
            match self.message(m.sender_id, m.message_id) {
                Some(text) => {
                    let same = match last {
                        Some(id) => id == m.sender_id,
                        None => false,
                    };
                    if !same {
                        lines.push(HistoryLine::Blank);
                        lines.push(
                            HistoryLine::Header { sender_id: m.sender_id, timestamp: m.timestamp },
                        );
                    }
                    lines.push(HistoryLine::Body(text.clone()));
                    last = Some(m.sender_id);
                    proof {
                        let head = if same {
                            Seq::<HistoryLineView>::empty()
                        } else {
                            seq![
                                HistoryLineView::Blank,
                                HistoryLineView::Header {
                                    sender_id: m.sender_id,
                                    timestamp: m.timestamp,
                                },
                            ]
                        };
                        assert(lines_view(lines@) =~= shown + head + seq![
                            HistoryLineView::Body(text@),
                        ]);
                        let tail = rendered(
                            self.messages@.take(i as int),
                            bodies_of(self.all_messages@),
                            last,
                        );
                        assert(shown + (head + seq![HistoryLineView::Body(text@)] + tail)
                            =~= lines_view(lines@) + tail);
                    }
                },
                None => {},
            }
        }
        assert(lines_view(lines@) + Seq::<HistoryLineView>::empty() =~= lines_view(lines@));
        lines
    }

    /// The title of the chat: the server's name and the client's identity.
    pub fn title(&self) -> (text: String)
        ensures
            text@ == "Server name - "@ + self.model().identity.label(),
    {
        let mut text = String::from_str("Server name - ");
        let id = self.self_id.to_text();
        push_text(&mut text, id.as_str());
        text
    }
}

// ---------------------------------------------------------------------------
// What holds of every view
// ---------------------------------------------------------------------------

/// A message that arrives twice is on file once, with the text that it
/// had, and stands in the history twice.
pub proof fn new_message_twice(
    m: StoreModel,
    sender_id: u128,
    message_id: u128,
    message: Seq<char>,
    first: Timestamp,
    second: Timestamp,
)
    ensures
        ({
            let p = ServerPacketView::Chat(
                ServerChatView::NewMessage { sender_id, message_id, message },
            );
            let once = applied(m, p, first);
            let twice = applied(once, p, second);
            &&& twice.bodies == once.bodies
            &&& twice.bodies[(sender_id, message_id)] == message
            &&& twice.identity == once.identity
            &&& twice.history == m.history.push(
                Message { sender_id, message_id, timestamp: first },
            ).push(Message { sender_id, message_id, timestamp: second })
        }),
{
    let p = ServerPacketView::Chat(ServerChatView::NewMessage { sender_id, message_id, message });
    let once = applied(m, p, first);
    let twice = applied(once, p, second);
    assert(twice.bodies =~= once.bodies);
}

/// The server's word resolves the identity, whatever was known; what was
/// resolved stays resolved without another request; and applying the same
/// word twice changes nothing more.
pub proof fn self_member_resolves(m: StoreModel, member_id: u128, at: Timestamp, now: u64)
    ensures
        ({
            let p = ServerPacketView::Chat(ServerChatView::SelfMember { member_id });
            let once = applied(m, p, at);
            &&& once.identity == SelfUuid::Resolved(member_id)
            &&& applied(once, p, at) == once
            &&& driven(once.identity, now) == (once.identity, false)
        }),
{
}

/// While the identity is not resolved, a request is never more than a
/// second old after a tick: the client asks at its first tick, and asks
/// again at the first tick that finds the request a second old. A client
/// whose every request is answered is therefore resolved at the tick that
/// takes in the answer to its first request, and one whose first request
/// or answer was lost asks again within a second of ticking.
pub proof fn identity_request_is_never_stale(identity: SelfUuid, now: u64)
    ensures
        match driven(identity, now).0 {
            SelfUuid::Resolved(_) => identity == driven(identity, now).0,
            SelfUuid::Pending(since) => !overdue(since, now),
            SelfUuid::Unknown => false,
        },
        identity == SelfUuid::Unknown ==> driven(identity, now) == (SelfUuid::Pending(now), true),
        identity matches SelfUuid::Pending(since) && overdue(since, now) ==> driven(identity, now)
            == (SelfUuid::Pending(now), true),
{
}

/// With nothing known the client asks at once; while its request is less
/// than a second old it waits; and at the first look a second or more after
/// the request it asks again.
pub proof fn identity_is_asked_for_once_a_second(asked: u64, now: u64)
    requires
        asked <= now,
    ensures
        driven(SelfUuid::Unknown, asked) == (SelfUuid::Pending(asked), true),
        driven(SelfUuid::Pending(asked), now) == if now - asked >= SECOND {
            (SelfUuid::Pending(now), true)
        } else {
            (SelfUuid::Pending(asked), false)
        },
{
}

// ---------------------------------------------------------------------------
// The identity over a run of ticks
// ---------------------------------------------------------------------------

/// A tick as the identity sees it: the reading of the session clock, and the
/// packet that the tick takes in, if it takes one in.
pub struct Tick {
    pub now: u64,
    pub incoming: Option<ServerPacketView>,
}

/// What one tick does to the identity, and whether it asks the server.
pub open spec fn identity_step(identity: SelfUuid, tick: Tick) -> (SelfUuid, bool) {
    let heard = match tick.incoming {
        Some(ServerPacketView::Chat(ServerChatView::SelfMember { member_id })) => {
            SelfUuid::Resolved(member_id)
        },
        _ => identity,
    };
    driven(heard, tick.now)
}

/// The identity after a run of ticks, from nothing known.
pub open spec fn identity_after(ticks: Seq<Tick>) -> SelfUuid
    decreases ticks.len(),
{
    if ticks.len() == 0 {
        SelfUuid::Unknown
    } else {
        identity_step(identity_after(ticks.drop_last()), ticks.last()).0
    }
}

/// Whether the tick at `k` of a run asks the server for the identity.
pub open spec fn asks_at(ticks: Seq<Tick>, k: int) -> bool {
    identity_step(identity_after(ticks.take(k)), ticks[k]).1
}

/// Whether a packet is the server's word that the client is `id`.
pub open spec fn is_answer(incoming: Option<ServerPacketView>, id: u128) -> bool {
    incoming == Some(ServerPacketView::Chat(ServerChatView::SelfMember { member_id: id }))
}

/// The tick after the one at `k` comes no earlier than it, and no more
/// than `period` later.
pub open spec fn follows(ticks: Seq<Tick>, period: int, k: int) -> bool {
    ticks[k].now <= ticks[k + 1].now <= ticks[k].now + period
}

/// The ticks of a run follow each other, none more than `period` after the
/// one before.
pub open spec fn steady(ticks: Seq<Tick>, period: int) -> bool {
    forall|k: int| 0 <= k < ticks.len() - 1 ==> #[trigger] follows(ticks, period, k)
}

/// The server of a run tells the client that it is `id`: it never names
/// another identity, and every request is answered in time for the next
/// tick, except perhaps the first request of the run, which may be lost, or
/// its answer.
pub open spec fn answered(ticks: Seq<Tick>, id: u128) -> bool {
    &&& forall|k: int|
        1 <= k < ticks.len() - 1 && #[trigger] asks_at(ticks, k) ==> is_answer(
            ticks[k + 1].incoming,
            id,
        )
    &&& forall|k: int, other: u128|
        0 <= k < ticks.len() && #[trigger] is_answer(ticks[k].incoming, other) ==> other == id
}

/// A tick of the local view does to the identity what `identity_step` says.
pub proof fn identity_step_is_the_tick(m: StoreModel, tick: Tick, received_at: Timestamp)
    ensures
        ticked(m, tick.incoming, tick.now, received_at).0.identity == identity_step(
            m.identity,
            tick,
        ).0,
        ticked(m, tick.incoming, tick.now, received_at).2 == identity_step(m.identity, tick).1,
{
}

proof fn lemma_times_rise(ticks: Seq<Tick>, period: int, a: int, b: int)
    requires
        steady(ticks, period),
        0 <= a <= b < ticks.len(),
    ensures
        ticks[a].now <= ticks[b].now,
        ticks[b].now <= ticks[a].now + (b - a) * period || period < 0,
    decreases b - a,
{
    if a < b {
        lemma_times_rise(ticks, period, a, b - 1);
        assert(follows(ticks, period, b - 1));
        assert((b - a) * period == (b - 1 - a) * period + period) by (nonlinear_arith);
    }
}

proof fn lemma_step(ticks: Seq<Tick>, k: int)
    requires
        0 <= k < ticks.len(),
    ensures
        identity_after(ticks.take(k + 1)) == identity_step(
            identity_after(ticks.take(k)),
            ticks[k],
        ).0,
{
    assert(ticks.take(k + 1).drop_last() =~= ticks.take(k));
    assert(ticks.take(k + 1).last() == ticks[k]);
}

/// Before a second has passed since the first tick, the client is resolved
/// or still waits for the answer to its first request.
proof fn lemma_waiting(ticks: Seq<Tick>, id: u128, period: int, k: int)
    requires
        steady(ticks, period),
        answered(ticks, id),
        0 <= k < ticks.len(),
        ticks[k].now < ticks[0].now + SECOND,
    ensures
        identity_after(ticks.take(k + 1)) == SelfUuid::Resolved(id) || identity_after(
            ticks.take(k + 1),
        ) == SelfUuid::Pending(ticks[0].now),
    decreases k,
{
    lemma_step(ticks, k);
    if k == 0 {
        assert(ticks.take(0) =~= Seq::<Tick>::empty());
    } else {
        lemma_times_rise(ticks, period, k - 1, k);
        lemma_waiting(ticks, id, period, k - 1);
        lemma_times_rise(ticks, period, 0, k);
    }
    match ticks[k].incoming {
        Some(ServerPacketView::Chat(ServerChatView::SelfMember { member_id })) => {
            assert(is_answer(ticks[k].incoming, member_id));
        },
        _ => {},
    }
}

/// At a tick a second or more after the first, the client is resolved, or
/// it has just asked again.
proof fn lemma_retry(ticks: Seq<Tick>, id: u128, period: int, j: int)
    requires
        steady(ticks, period),
        answered(ticks, id),
        1 <= j < ticks.len(),
        ticks[j].now >= ticks[0].now + SECOND,
    ensures
        identity_after(ticks.take(j + 1)) == SelfUuid::Resolved(id) || (identity_after(
            ticks.take(j + 1),
        ) == SelfUuid::Pending(ticks[j].now) && asks_at(ticks, j)),
    decreases j,
{
    lemma_step(ticks, j);
    match ticks[j].incoming {
        Some(ServerPacketView::Chat(ServerChatView::SelfMember { member_id })) => {
            assert(is_answer(ticks[j].incoming, member_id));
        },
        _ => {},
    }
    if j - 1 >= 1 && ticks[j - 1].now >= ticks[0].now + SECOND {
        lemma_retry(ticks, id, period, j - 1);
        if asks_at(ticks, j - 1) {
            assert(is_answer(ticks[j - 1 + 1].incoming, id));
        }
    } else {
        lemma_waiting(ticks, id, period, j - 1);
        lemma_times_rise(ticks, period, 0, j);
    }
}

/// Once resolved, the client stays resolved and asks no more.
proof fn lemma_stays(ticks: Seq<Tick>, id: u128, a: int, n: int)
    requires
        answered(ticks, id),
        0 <= a <= n < ticks.len(),
        identity_after(ticks.take(a + 1)) == SelfUuid::Resolved(id),
    ensures
        identity_after(ticks.take(n + 1)) == SelfUuid::Resolved(id),
        !asks_at(ticks, n),
    decreases n - a,
{
    lemma_step(ticks, n);
    if a < n {
        lemma_stays(ticks, id, a, n - 1);
        match ticks[n].incoming {
            Some(ServerPacketView::Chat(ServerChatView::SelfMember { member_id })) => {
                assert(is_answer(ticks[n].incoming, member_id));
            },
            _ => {},
        }
    }
}

/// The identity converges. Take a run of ticks that starts when the client
/// connects, with nothing known, and a server that answers as `answered`
/// says. Let the tick at `j` be the first that comes a second or more after
/// the first tick. Then the tick after it leaves the client resolved, and so
/// does every later tick `n`, none of which asks the server again. That
/// tick comes less than a second and two periods after the first one: with
/// ticks no more than half a second apart, the client is resolved within
/// two seconds of connecting, even where its first request was lost.
pub proof fn identity_converges(ticks: Seq<Tick>, id: u128, period: int, j: int, n: int)
    requires
        steady(ticks, period),
        answered(ticks, id),
        1 <= j,
        j + 1 <= n < ticks.len(),
        ticks[j - 1].now < ticks[0].now + SECOND <= ticks[j].now,
    ensures
        identity_after(ticks.take(n + 1)) == SelfUuid::Resolved(id),
        !asks_at(ticks, n),
        ticks[j + 1].now < ticks[0].now + SECOND + 2 * period,
        2 * period <= SECOND ==> ticks[j + 1].now < ticks[0].now + 2 * SECOND,
{
    lemma_retry(ticks, id, period, j);
    lemma_step(ticks, j + 1);
    if asks_at(ticks, j) {
        assert(is_answer(ticks[j + 1].incoming, id));
    }
    match ticks[j + 1].incoming {
        Some(ServerPacketView::Chat(ServerChatView::SelfMember { member_id })) => {
            assert(is_answer(ticks[j + 1].incoming, member_id));
        },
        _ => {},
    }
    assert(identity_after(ticks.take(j + 2)) == SelfUuid::Resolved(id));
    lemma_stays(ticks, id, j + 1, n);
    assert(follows(ticks, period, j - 1));
    assert(follows(ticks, period, j));
}

/// A client whose first request is answered is resolved by its second tick.
pub proof fn identity_resolves_at_once_when_answered(ticks: Seq<Tick>, id: u128, n: int)
    requires
        answered(ticks, id),
        1 <= n < ticks.len(),
        is_answer(ticks[1].incoming, id),
    ensures
        identity_after(ticks.take(n + 1)) == SelfUuid::Resolved(id),
        !asks_at(ticks, n),
{
    lemma_step(ticks, 1);
    lemma_stays(ticks, id, 1, n);
}

/// A message whose text is no longer on file leaves no line.
pub proof fn missing_text_is_passed_over(
    history: Seq<Message>,
    bodies: Map<(u128, u128), Seq<char>>,
    last: Option<u128>,
)
    requires
        history.len() > 0,
        !bodies.contains_key((history.last().sender_id, history.last().message_id)),
    ensures
        rendered(history, bodies, last) == rendered(history.drop_last(), bodies, last),
{
}

} // verus!
