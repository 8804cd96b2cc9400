//! The state of the chat client between two frames: the local view, the
//! line being typed, and what the next key or tick does to them.

use crate::client::{ClientChatPacket, ClientChatView, ClientPacket, ClientPacketView};
use crate::clock::{local_now, Stopwatch, Timestamp};
use crate::ident::fresh_id;
use crate::input::{edit, edited, Focus, KeyCode, KeyEvent, Line};
use crate::server::{ServerPacket, ServerPacketView};
use crate::store::{
    identity_request, ticked, Message, SelfUuid, Store, StoreModel, TickOutcome,
};
use crate::text::{blank, is_blank, text_of};
use vstd::prelude::*;

verus! {

/// The client's state.
pub struct App {
    no_unicode: bool,
    should_close: bool,
    focus: Focus,
    input: Vec<char>,
    store: Store,
    clock: Stopwatch,
}

/// The client's state as a value.
pub struct AppModel {
    pub no_unicode: bool,
    pub should_close: bool,
    pub focus: Focus,
    pub input: Seq<char>,
    pub store: StoreModel,
}

/// The narrowest terminal in which the chat is drawn.
pub const MIN_WIDTH: u16 = 50;

/// The lowest terminal in which the chat is drawn.
pub const MIN_HEIGHT: u16 = 14;

/// Whether a terminal is too small for the chat, so that a notice is drawn
/// in its place.
pub fn too_small(width: u16, height: u16) -> (b: bool)
    ensures
        b == (width < MIN_WIDTH || height < MIN_HEIGHT),
{
    width < MIN_WIDTH || height < MIN_HEIGHT
}

/// Whether a key asks to leave: escape, or `c` with control.
pub open spec fn is_quit_key(key: KeyEvent) -> bool {
    key.code == KeyCode::Esc || (key.code == KeyCode::Char('c') && key.control)
}

/// What a key does while the input line has the keyboard.
///
/// Enter sends the line as a message under `message_id` and empties the
/// line, unless the line is blank: a blank line stays and nothing is sent.
/// Every other key edits the line or moves the cursor. While the messages
/// have the keyboard, keys do nothing.
pub open spec fn keyed(m: AppModel, key: KeyEvent, message_id: u128) -> (
    AppModel,
    Option<ClientPacketView>,
) {
    match m.focus {
        Focus::Input { idx } => match key.code {
            KeyCode::Enter => if is_blank(m.input) {
                (m, None)
            } else {
                (
                    AppModel { focus: Focus::Input { idx: 0 }, input: Seq::empty(), ..m },
                    Some(
                        ClientPacketView::Chat(
                            ClientChatView::SendMessage { message_id, message: m.input },
                        ),
                    ),
                )
            },
            _ => {
                let l = edited(Line { text: m.input, idx: idx as int }, key);
                (AppModel { focus: Focus::Input { idx: l.idx as usize }, input: l.text, ..m }, None)
            },
        },
        Focus::Chat { idx } => (m, None),
    }
}

/// What a key does: a key that asks to leave marks the client as closing,
/// and every other key goes to the input line.
pub open spec fn pressed(m: AppModel, key: KeyEvent, message_id: u128) -> (
    AppModel,
    Option<ClientPacketView>,
) {
    if is_quit_key(key) {
        (AppModel { should_close: true, ..m }, None)
    } else {
        keyed(m, key, message_id)
    }
}

pub open spec fn packet_view(p: Option<ClientPacket>) -> Option<ClientPacketView> {
    match p {
        Some(p) => Some(p@),
        None => None,
    }
}

pub open spec fn incoming_view(p: Option<ServerPacket>) -> Option<ServerPacketView> {
    match p {
        Some(p) => Some(p@),
        None => None,
    }
}

/// Whether a tick's outcome is the one that `ticked` gives.
pub open spec fn outcome_matches(
    out: TickOutcome,
    t: (StoreModel, Option<(Seq<char>, Seq<char>)>, bool),
) -> bool {
    &&& match out.notify {
        Some(n) => t.1 == Some((n.summary@, n.body@)),
        None => t.1 is None,
    }
    &&& match out.request {
        Some(r) => t.2 && r@ == identity_request(),
        None => !t.2,
    }
}

impl App {
    pub closed spec fn model(&self) -> AppModel {
        AppModel {
            no_unicode: self.no_unicode,
            should_close: self.should_close,
            focus: self.focus,
            input: self.input@,
            store: self.store.model(),
        }
    }

    /// A client that has seen nothing, with an empty line that has the
    /// keyboard. Its session clock starts now.
    pub fn new(no_unicode: bool) -> (app: App)
        ensures
            app.model().no_unicode == no_unicode,
            !app.model().should_close,
            app.model().focus == (Focus::Input { idx: 0 }),
            app.model().input == Seq::<char>::empty(),
            app.model().store == (StoreModel {
                bodies: Map::<(u128, u128), Seq<char>>::empty(),
                history: Seq::<Message>::empty(),
                identity: SelfUuid::Unknown,
            }),
    {
        App {
            no_unicode,
            should_close: false,
            focus: Focus::Input { idx: 0 },
            input: Vec::new(),
            store: Store::new(),
            clock: Stopwatch::start(),
        }
    }

    pub fn should_close(&self) -> (b: bool)
        ensures
            b == self.model().should_close,
    {
        self.should_close
    }

    pub fn no_unicode(&self) -> (b: bool)
        ensures
            b == self.model().no_unicode,
    {
        self.no_unicode
    }

    pub fn focus(&self) -> (f: Focus)
        ensures
            f == self.model().focus,
    {
        self.focus
    }

    /// The line being typed.
    pub fn input(&self) -> (line: &Vec<char>)
        ensures
            line@ == self.model().input,
    {
        &self.input
    }

    /// The local view.
    pub fn store(&self) -> (s: &Store)
        ensures
            s.model() == self.model().store,
    {
        &self.store
    }

    /// A key for the input line; `message_id` is the identifier that a
    /// message gets if the key sends one.
    pub fn key_event_with(&mut self, event: KeyEvent, message_id: u128) -> (send: Option<
        ClientPacket,
    >)
        ensures
            final(self).model() == keyed(old(self).model(), event, message_id).0,
            packet_view(send) == keyed(old(self).model(), event, message_id).1,
    {
        match self.focus {
            Focus::Input { idx } => match event.code {
                KeyCode::Enter => {
                    let message = text_of(&self.input);
                    if blank(message.as_str()) {
                        return None;
                    }
                    self.focus = Focus::Input { idx: 0 };
                    self.input = Vec::new();
                    Some(
                        ClientPacket::Chat(ClientChatPacket::SendMessage { message_id, message }),
                    )
                },
                _ => {
                    let mut at: usize = idx;
                    edit(&mut self.input, &mut at, event);
                    self.focus = Focus::Input { idx: at };
                    None
                },
            },
            Focus::Chat { idx } => None,
        }
    }

    /// A key for the input line. A message that it sends goes out under an
    /// identifier drawn at random.
    pub fn key_event(&mut self, event: KeyEvent) -> (send: Option<ClientPacket>)
        ensures
            exists|message_id: u128|
                final(self).model() == (#[trigger] keyed(old(self).model(), event, message_id)).0
                    && packet_view(send) == keyed(old(self).model(), event, message_id).1,
    {
        let message_id = fresh_id();
        self.key_event_with(event, message_id)
    }

    /// Any key: one that asks to leave, or one for the input line.
    pub fn press_with(&mut self, event: KeyEvent, message_id: u128) -> (send: Option<ClientPacket>)
        ensures
            final(self).model() == pressed(old(self).model(), event, message_id).0,
            packet_view(send) == pressed(old(self).model(), event, message_id).1,
    {
        let quits = match event.code {
            KeyCode::Esc => true,
            KeyCode::Char(c) => c == 'c' && event.control,
            _ => false,
        };
        if quits {
            self.should_close = true;
            None
        } else {
            self.key_event_with(event, message_id)
        }
    }

    /// Any key. A message that it sends goes out under an identifier drawn
    /// at random.
    pub fn press(&mut self, event: KeyEvent) -> (send: Option<ClientPacket>)
        ensures
            exists|message_id: u128|
                final(self).model() == (#[trigger] pressed(old(self).model(), event, message_id)).0
                    && packet_view(send) == pressed(old(self).model(), event, message_id).1,
    {
        let message_id = fresh_id();
        self.press_with(event, message_id)
    }

    /// One tick at given readings of the two clocks.
    pub fn tick_at(&mut self, incoming: Option<ServerPacket>, now: u64, received_at: Timestamp) -> (out:
        TickOutcome)
        ensures
            final(self).model() == (AppModel {
                store: ticked(
                    old(self).model().store,
                    incoming_view(incoming),
                    now,
                    received_at,
                ).0,
                ..old(self).model()
            }),
            outcome_matches(
                out,
                ticked(old(self).model().store, incoming_view(incoming), now, received_at),
            ),
    {
        self.store.tick_at(incoming, now, received_at)
    }

    /// One tick: takes in the packet that is waiting, if one is, stamped
    /// with the wall clock's time, and looks after the client's identity by
    /// the session clock. What the clocks read is theirs to say; the tick is
    /// the tick at whatever they read.
    pub fn tick(&mut self, incoming: Option<ServerPacket>) -> (out: TickOutcome)
        ensures
            exists|now: u64, received_at: Timestamp|
                {
                    let t = #[trigger] ticked(
                        old(self).model().store,
                        incoming_view(incoming),
                        now,
                        received_at,
                    );
                    &&& final(self).model() == (AppModel { store: t.0, ..old(self).model() })
                    &&& outcome_matches(out, t)
                },
    {
        let now = self.clock.millis();
        let received_at = local_now();
        self.tick_at(incoming, now, received_at)
    }
}

/// A blank line is never sent, whatever the key.
pub proof fn blank_line_is_never_sent(m: AppModel, key: KeyEvent, message_id: u128)
    requires
        is_blank(m.input),
    ensures
        pressed(m, key, message_id).1 is None,
{
}

} // verus!
