//! Packets that a client sends.

use crate::compat::{
    lemma_info_exact, lemma_info_round_trip, put_info, read_info, take_info, write_info,
    CompatibilityInfo,
};
use crate::wire::{
    bytes_as_slice, framed, lemma_id_exact, lemma_id_round_trip, lemma_text_exact,
    lemma_text_round_trip, lemma_u32_exact, lemma_u32_round_trip,
    lemma_window_keeps_prefix, put_id, put_text, put_u32, seal, take_id, take_text, take_u32,
    window, window_of, write_id, write_text, write_u32, FromPacketBytes, IntoPacketBytes, Reader,
    MAX_PACKET_BYTES,
};
use bytes::Bytes;
use vstd::prelude::*;

verus! {

/// The envelope of everything a client sends. `Init` stays the first
/// variant: a peer of another version must be able to read at least that.
#[derive(Debug, Clone, PartialEq, Eq)]
#[non_exhaustive]
pub enum ClientPacket {
    Init(ClientInitPacket),
    Chat(ClientChatPacket),
}

/// What a client sends during the handshake. `ClientInfo` stays the first
/// variant.
#[derive(Debug, Clone, PartialEq, Eq)]
#[non_exhaustive]
pub enum ClientInitPacket {
    ClientInfo(CompatibilityInfo),
}

/// What a client sends once the handshake is done.
#[derive(Debug, Clone, PartialEq, Eq)]
#[non_exhaustive]
pub enum ClientChatPacket {
    RequestMembers,
    RequestSelfMember,
    SendMessage { message_id: u128, message: String },
    EditMessage { message_id: u128, message: String },
    RemoveMessage { message_id: u128 },
    KeepAlive,
}

/// A chat packet as a value: text as a sequence of characters.
pub enum ClientChatView {
    RequestMembers,
    RequestSelfMember,
    SendMessage { message_id: u128, message: Seq<char> },
    EditMessage { message_id: u128, message: Seq<char> },
    RemoveMessage { message_id: u128 },
    KeepAlive,
}

/// An envelope as a value.
pub enum ClientPacketView {
    Init(ClientInitPacket),
    Chat(ClientChatView),
}

impl View for ClientInitPacket {
    type V = ClientInitPacket;

    open spec fn view(&self) -> ClientInitPacket {
        *self
    }
}

impl View for ClientChatPacket {
    type V = ClientChatView;

    open spec fn view(&self) -> ClientChatView {
        match *self {
            ClientChatPacket::RequestMembers => ClientChatView::RequestMembers,
            ClientChatPacket::RequestSelfMember => ClientChatView::RequestSelfMember,
            ClientChatPacket::SendMessage { message_id, message } => ClientChatView::SendMessage {
                message_id,
                message: message@,
            },
            ClientChatPacket::EditMessage { message_id, message } => ClientChatView::EditMessage {
                message_id,
                message: message@,
            },
            ClientChatPacket::RemoveMessage { message_id } => ClientChatView::RemoveMessage {
                message_id,
            },
            ClientChatPacket::KeepAlive => ClientChatView::KeepAlive,
        }
    }
}

impl View for ClientPacket {
    type V = ClientPacketView;

    open spec fn view(&self) -> ClientPacketView {
        match *self {
            ClientPacket::Init(p) => ClientPacketView::Init(p),
            ClientPacket::Chat(p) => ClientPacketView::Chat(p@),
        }
    }
}

// ---------------------------------------------------------------------------
// Wire format
// ---------------------------------------------------------------------------

pub open spec fn put_client_init(p: ClientInitPacket) -> Seq<u8> {
    match p {
        ClientInitPacket::ClientInfo(info) => put_u32(0) + put_info(info),
    }
}

pub open spec fn take_client_init(s: Seq<u8>) -> Option<(ClientInitPacket, Seq<u8>)> {
    match take_u32(s) {
        Some((tag, s1)) => if tag == 0 {
            match take_info(s1) {
                Some((info, s2)) => Some((ClientInitPacket::ClientInfo(info), s2)),
                None => None,
            }
        } else {
            None
        },
        None => None,
    }
}

pub open spec fn put_client_chat(p: ClientChatView) -> Seq<u8> {
    match p {
        ClientChatView::RequestMembers => put_u32(0),
        ClientChatView::RequestSelfMember => put_u32(1),
        ClientChatView::SendMessage { message_id, message } => put_u32(2) + put_id(message_id)
            + put_text(message),
        ClientChatView::EditMessage { message_id, message } => put_u32(3) + put_id(message_id)
            + put_text(message),
        ClientChatView::RemoveMessage { message_id } => put_u32(4) + put_id(message_id),
        ClientChatView::KeepAlive => put_u32(5),
    }
}

pub open spec fn take_client_chat(s: Seq<u8>) -> Option<(ClientChatView, Seq<u8>)> {
    match take_u32(s) {
        Some((tag, s1)) => if tag == 0 {
            Some((ClientChatView::RequestMembers, s1))
        } else if tag == 1 {
            Some((ClientChatView::RequestSelfMember, s1))
        } else if tag == 2 || tag == 3 {
            match take_id(s1) {
                Some((message_id, s2)) => match take_text(s2) {
                    Some((message, s3)) => if tag == 2 {
                        Some((ClientChatView::SendMessage { message_id, message }, s3))
                    } else {
                        Some((ClientChatView::EditMessage { message_id, message }, s3))
                    },
                    None => None,
                },
                None => None,
            }
        } else if tag == 4 {
            match take_id(s1) {
                Some((message_id, s2)) => Some((ClientChatView::RemoveMessage { message_id }, s2)),
                None => None,
            }
        } else if tag == 5 {
            Some((ClientChatView::KeepAlive, s1))
        } else {
            None
        },
        None => None,
    }
}

pub open spec fn put_client_packet(p: ClientPacketView) -> Seq<u8> {
    match p {
        ClientPacketView::Init(init) => put_u32(0) + put_client_init(init),
        ClientPacketView::Chat(chat) => put_u32(1) + put_client_chat(chat),
    }
}

pub open spec fn take_client_packet(s: Seq<u8>) -> Option<(ClientPacketView, Seq<u8>)> {
    match take_u32(s) {
        Some((tag, s1)) => if tag == 0 {
            match take_client_init(s1) {
                Some((init, s2)) => Some((ClientPacketView::Init(init), s2)),
                None => None,
            }
        } else if tag == 1 {
            match take_client_chat(s1) {
                Some((chat, s2)) => Some((ClientPacketView::Chat(chat), s2)),
                None => None,
            }
        } else {
            None
        },
        None => None,
    }
}

/// The packet at the front of a buffer's window.
pub open spec fn client_packet_in(buffer: Seq<u8>) -> Option<ClientPacketView> {
    match take_client_packet(window(buffer)) {
        Some((p, _)) => Some(p),
        None => None,
    }
}

pub proof fn lemma_client_init_round_trip(p: ClientInitPacket, rest: Seq<u8>)
    ensures
        take_client_init(put_client_init(p) + rest) == Some((p, rest)),
{
    match p {
        ClientInitPacket::ClientInfo(info) => {
            let t1 = put_info(info) + rest;
            lemma_u32_round_trip(0, t1);
            lemma_info_round_trip(info, rest);
            assert(put_client_init(p) + rest =~= put_u32(0) + t1);
        },
    }
}

pub proof fn lemma_client_chat_round_trip(p: ClientChatView, rest: Seq<u8>)
    requires
        put_client_chat(p).len() <= u64::MAX,
    ensures
        take_client_chat(put_client_chat(p) + rest) == Some((p, rest)),
{
    match p {
        ClientChatView::RequestMembers => {
            lemma_u32_round_trip(0, rest);
        },
        ClientChatView::RequestSelfMember => {
            lemma_u32_round_trip(1, rest);
        },
        ClientChatView::SendMessage { message_id, message } => {
            let t2 = put_text(message) + rest;
            let t1 = put_id(message_id) + t2;
            lemma_u32_round_trip(2, t1);
            lemma_id_round_trip(message_id, t2);
            lemma_text_round_trip(message, rest);
            assert(put_client_chat(p) + rest =~= put_u32(2) + t1);
        },
        ClientChatView::EditMessage { message_id, message } => {
            let t2 = put_text(message) + rest;
            let t1 = put_id(message_id) + t2;
            lemma_u32_round_trip(3, t1);
            lemma_id_round_trip(message_id, t2);
            lemma_text_round_trip(message, rest);
            assert(put_client_chat(p) + rest =~= put_u32(3) + t1);
        },
        ClientChatView::RemoveMessage { message_id } => {
            let t1 = put_id(message_id) + rest;
            lemma_u32_round_trip(4, t1);
            lemma_id_round_trip(message_id, rest);
            assert(put_client_chat(p) + rest =~= put_u32(4) + t1);
        },
        ClientChatView::KeepAlive => {
            lemma_u32_round_trip(5, rest);
        },
    }
}

pub proof fn lemma_client_packet_round_trip(p: ClientPacketView, rest: Seq<u8>)
    requires
        put_client_packet(p).len() <= u64::MAX,
    ensures
        take_client_packet(put_client_packet(p) + rest) == Some((p, rest)),
{
    match p {
        ClientPacketView::Init(init) => {
            let t1 = put_client_init(init) + rest;
            lemma_u32_round_trip(0, t1);
            lemma_client_init_round_trip(init, rest);
            assert(put_client_packet(p) + rest =~= put_u32(0) + t1);
        },
        ClientPacketView::Chat(chat) => {
            let t1 = put_client_chat(chat) + rest;
            lemma_u32_round_trip(1, t1);
            lemma_client_chat_round_trip(chat, rest);
            assert(put_client_packet(p) + rest =~= put_u32(1) + t1);
        },
    }
}

/// Decoding what was encoded gives the packet back: for every packet whose
/// encoding fits under the ceiling, and whatever bytes follow the encoding
/// in the buffer.
pub proof fn client_packet_round_trip(p: ClientPacketView, trailing: Seq<u8>)
    requires
        put_client_packet(p).len() <= MAX_PACKET_BYTES,
    ensures
        client_packet_in(put_client_packet(p) + trailing) == Some(p),
{
    let wire = put_client_packet(p);
    lemma_window_keeps_prefix(wire, trailing);
    let tail = choose|tail: Seq<u8>| window(wire + trailing) == wire + tail;
    lemma_client_packet_round_trip(p, tail);
}

pub proof fn lemma_client_packet_exact(s: Seq<u8>)
    requires
        take_client_packet(s) is Some,
    ensures
        s == put_client_packet(take_client_packet(s).unwrap().0) + take_client_packet(
            s,
        ).unwrap().1,
{
    lemma_u32_exact(s);
    let envelope = take_u32(s).unwrap().0;
    let s1 = take_u32(s).unwrap().1;
    let p = take_client_packet(s).unwrap().0;
    let rest = take_client_packet(s).unwrap().1;
    lemma_u32_exact(s1);
    let tag = take_u32(s1).unwrap().0;
    let s2 = take_u32(s1).unwrap().1;
    if envelope == 0 {
        lemma_info_exact(s2);
        assert(s1 =~= put_client_init(take_client_init(s1).unwrap().0) + rest);
    } else {
        if tag == 2 || tag == 3 {
            lemma_id_exact(s2);
            lemma_text_exact(take_id(s2).unwrap().1);
        } else if tag == 4 {
            lemma_id_exact(s2);
        }
        assert(s1 =~= put_client_chat(take_client_chat(s1).unwrap().0) + rest);
    }
    assert(s =~= put_client_packet(p) + rest);
}

/// A buffer decodes to a packet only where its window begins with that
/// packet's encoding: nothing else is taken for the packet.
pub proof fn client_packet_decodes_only_its_encoding(buffer: Seq<u8>)
    requires
        client_packet_in(buffer) is Some,
    ensures
        exists|rest: Seq<u8>|
            window(buffer) == put_client_packet(client_packet_in(buffer).unwrap()) + rest,
        put_client_packet(client_packet_in(buffer).unwrap()).len() <= MAX_PACKET_BYTES,
{
    lemma_client_packet_exact(window(buffer));
    let rest = take_client_packet(window(buffer)).unwrap().1;
    assert(window(buffer) == put_client_packet(client_packet_in(buffer).unwrap()) + rest);
}

// ---------------------------------------------------------------------------
// Encoding and decoding
// ---------------------------------------------------------------------------

pub(crate) fn write_client_init(out: &mut Vec<u8>, p: &ClientInitPacket)
    ensures
        final(out)@ == old(out)@ + put_client_init(*p),
{
    let ghost before = out@;
    match p {
        ClientInitPacket::ClientInfo(info) => {
            write_u32(out, 0);
            write_info(out, info);
        },
    }
    assert(out@ =~= before + put_client_init(*p));
}

pub(crate) fn write_client_chat(out: &mut Vec<u8>, p: &ClientChatPacket)
    ensures
        final(out)@ == old(out)@ + put_client_chat(p@),
{
    let ghost before = out@;
    match p {
        ClientChatPacket::RequestMembers => {
            write_u32(out, 0);
        },
        ClientChatPacket::RequestSelfMember => {
            write_u32(out, 1);
        },
        ClientChatPacket::SendMessage { message_id, message } => {
            write_u32(out, 2);
            write_id(out, *message_id);
            write_text(out, message.as_str());
        },
        ClientChatPacket::EditMessage { message_id, message } => {
            write_u32(out, 3);
            write_id(out, *message_id);
            write_text(out, message.as_str());
        },
        ClientChatPacket::RemoveMessage { message_id } => {
            write_u32(out, 4);
            write_id(out, *message_id);
        },
        ClientChatPacket::KeepAlive => {
            write_u32(out, 5);
        },
    }
    assert(out@ =~= before + put_client_chat(p@));
}

pub(crate) fn write_client_packet(out: &mut Vec<u8>, p: &ClientPacket)
    ensures
        final(out)@ == old(out)@ + put_client_packet(p@),
{
    let ghost before = out@;
    match p {
        ClientPacket::Init(init) => {
            write_u32(out, 0);
            write_client_init(out, init);
        },
        ClientPacket::Chat(chat) => {
            write_u32(out, 1);
            write_client_chat(out, chat);
        },
    }
    assert(out@ =~= before + put_client_packet(p@));
}

pub(crate) fn read_client_init(r: &mut Reader) -> (out: Option<ClientInitPacket>)
    requires
        old(r).wf(),
    ensures
        final(r).wf(),
        match out {
            Some(p) => take_client_init(old(r).rest()) == Some((p, final(r).rest())),
            None => take_client_init(old(r).rest()) is None,
        },
{
    let tag = match r.read_u32() {
        Some(v) => v,
        None => { return None; },
    };
    if tag != 0 {
        return None;
    }
    match read_info(r) {
        Some(info) => Some(ClientInitPacket::ClientInfo(info)),
        None => None,
    }
}

pub(crate) fn read_client_chat(r: &mut Reader) -> (out: Option<ClientChatPacket>)
    requires
        old(r).wf(),
    ensures
        final(r).wf(),
        match out {
            Some(p) => take_client_chat(old(r).rest()) == Some((p@, final(r).rest())),
            None => take_client_chat(old(r).rest()) is None,
        },
{
    let tag = match r.read_u32() {
        Some(v) => v,
        None => { return None; },
    };
    if tag == 0 {
        Some(ClientChatPacket::RequestMembers)
    } else if tag == 1 {
        Some(ClientChatPacket::RequestSelfMember)
    } else if tag == 2 || tag == 3 {
        let message_id = match r.read_id() {
            Some(v) => v,
            None => { return None; },
        };
        let message = match r.read_text() {
            Some(v) => v,
            None => { return None; },
        };
        if tag == 2 {
            Some(ClientChatPacket::SendMessage { message_id, message })
        } else {
            Some(ClientChatPacket::EditMessage { message_id, message })
        }
    } else if tag == 4 {
        match r.read_id() {
            Some(message_id) => Some(ClientChatPacket::RemoveMessage { message_id }),
            None => None,
        }
    } else if tag == 5 {
        Some(ClientChatPacket::KeepAlive)
    } else {
        None
    }
}

pub(crate) fn read_client_packet(r: &mut Reader) -> (out: Option<ClientPacket>)
    requires
        old(r).wf(),
    ensures
        final(r).wf(),
        match out {
            Some(p) => take_client_packet(old(r).rest()) == Some((p@, final(r).rest())),
            None => take_client_packet(old(r).rest()) is None,
        },
{
    let tag = match r.read_u32() {
        Some(v) => v,
        None => { return None; },
    };
    if tag == 0 {
        match read_client_init(r) {
            Some(init) => Some(ClientPacket::Init(init)),
            None => None,
        }
    } else if tag == 1 {
        match read_client_chat(r) {
            Some(chat) => Some(ClientPacket::Chat(chat)),
            None => None,
        }
    } else {
        None
    }
}

impl IntoPacketBytes for ClientPacket {
    open spec fn wire(&self) -> Seq<u8> {
        put_client_packet(self@)
    }

    fn into_bytes(self) -> (b: Bytes) {
        let mut out: Vec<u8> = Vec::new();
        write_client_packet(&mut out, &self);
        assert(out@ =~= self.wire());
        seal(out)
    }
}

impl IntoPacketBytes for ClientInitPacket {
    open spec fn wire(&self) -> Seq<u8> {
        put_client_packet(ClientPacketView::Init(*self))
    }

    /// An init packet goes out inside its envelope.
    fn into_bytes(self) -> (b: Bytes) {
        ClientPacket::Init(self).into_bytes()
    }
}

impl IntoPacketBytes for ClientChatPacket {
    open spec fn wire(&self) -> Seq<u8> {
        put_client_packet(ClientPacketView::Chat(self@))
    }

    /// A chat packet goes out inside its envelope.
    fn into_bytes(self) -> (b: Bytes) {
        ClientPacket::Chat(self).into_bytes()
    }
}

impl FromPacketBytes for ClientPacket {
    open spec fn decoded(buffer: Seq<u8>) -> Option<ClientPacketView> {
        client_packet_in(buffer)
    }

    fn from_bytes(bytes: Bytes) -> (r: Option<ClientPacket>) {
        let all = bytes_as_slice(&bytes);
        let seen = window_of(all);
        let mut reader = Reader::new(seen);
        read_client_packet(&mut reader)
    }
}

/// What is sent for a packet decodes to that packet, as long as the
/// packet's encoding fits under the ceiling.
pub proof fn sent_client_packet_is_received(p: ClientPacket)
    requires
        p.wire().len() <= MAX_PACKET_BYTES,
    ensures
        ClientPacket::decoded(framed(p.wire())) == Some(p@),
{
    client_packet_round_trip(p@, Seq::empty());
    assert(p.wire() + Seq::<u8>::empty() =~= p.wire());
}

} // verus!
