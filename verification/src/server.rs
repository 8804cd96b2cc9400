//! Packets that a server sends.

use crate::compat::{
    lemma_compat_error_exact, lemma_compat_error_round_trip, lemma_info_exact,
    lemma_info_round_trip, put_compat_error, put_info,
    read_compat_error, read_info, take_compat_error, take_info, write_compat_error, write_info,
    CompatibilityError, CompatibilityInfo,
};
use crate::wire::{
    bytes_as_slice, bytes_contents, framed, lemma_id_exact, lemma_id_round_trip,
    lemma_text_exact, lemma_text_round_trip, lemma_u32_exact, lemma_u32_round_trip,
    lemma_u64_exact,
    lemma_u64_round_trip, lemma_window_keeps_prefix, put_id, put_text, put_u32, put_u64, seal,
    take_id, take_text, take_u32, take_u64, window, window_of, write_id, write_text, write_u32,
    write_u64, FromPacketBytes, IntoPacketBytes, Reader, MAX_MEMBERS, MAX_PACKET_BYTES,
};
use crate::text::push_text;
use bytes::Bytes;
use std::collections::HashSet;
use vstd::prelude::*;
use vstd::string::StringExecFns;

verus! {

broadcast use vstd::std_specs::hash::group_hash_axioms;

/// The envelope of everything a server sends. `Init` stays the first
/// variant: a peer of another version must be able to read at least that.
#[derive(Debug, Clone, PartialEq, Eq)]
#[non_exhaustive]
pub enum ServerPacket {
    Init(ServerInitPacket),
    Chat(ServerChatPacket),
}

/// The server's answer to a handshake. These two variants stay the first.
#[derive(Debug, Clone, PartialEq, Eq)]
#[non_exhaustive]
pub enum ServerInitPacket {
    Success(CompatibilityInfo),
    Fail { reason: ServerInitFailReason },
}

/// What a server sends once the handshake is done.
///
/// A member list names each member once: `Members` holds no identifier
/// twice, and `MemberInfo` no two entries for one member.
#[derive(Debug, Clone, PartialEq, Eq)]
#[non_exhaustive]
pub enum ServerChatPacket {
    ServerInfo { name: String },
    SelfMember { member_id: u128 },
    Members { member_ids: Vec<u128> },
    NewMember { member_id: u128 },
    RemoveMember { member_id: u128 },
    MemberInfo { members: Vec<(u128, MemberInfo)> },
    NewMessage { sender_id: u128, message_id: u128, message: String },
    EditMessage { sender_id: u128, message_id: u128, message: String },
    RemoveMessage { sender_id: u128, message_id: u128 },
    KeepAlive,
    InvalidState,
}

/// What is known of a member.
#[derive(Debug, Clone, PartialEq, Eq)]
pub struct MemberInfo {
    pub name: String,
    pub status: MemberStatus,
}

#[derive(Debug, Clone, Copy, PartialEq, Eq)]
pub enum MemberStatus {
    /// Online, active or idle.
    Online,
    /// Online and not to be disturbed.
    Dnd,
    Offline,
}

/// Why the server declined a handshake. The first five variants stay as
/// they are.
#[derive(Debug, Clone, PartialEq, Eq)]
#[non_exhaustive]
pub enum ServerInitFailReason {
    /// The first packet was not the one that opens a handshake.
    InvalidState,
    InvalidPacket,
    CompatibilityError(CompatibilityError),
    /// Another connection from the same address is live.
    AlreadyConnected,
    Custom(String),
}

// ---------------------------------------------------------------------------
// The packets as values
// ---------------------------------------------------------------------------

pub enum FailReasonView {
    InvalidState,
    InvalidPacket,
    CompatibilityError(CompatibilityError),
    AlreadyConnected,
    Custom(Seq<char>),
}

pub enum ServerInitView {
    Success(CompatibilityInfo),
    Fail { reason: FailReasonView },
}

pub struct MemberInfoView {
    pub name: Seq<char>,
    pub status: MemberStatus,
}

pub enum ServerChatView {
    ServerInfo { name: Seq<char> },
    SelfMember { member_id: u128 },
    Members { member_ids: Seq<u128> },
    NewMember { member_id: u128 },
    RemoveMember { member_id: u128 },
    MemberInfo { members: Seq<(u128, MemberInfoView)> },
    NewMessage { sender_id: u128, message_id: u128, message: Seq<char> },
    EditMessage { sender_id: u128, message_id: u128, message: Seq<char> },
    RemoveMessage { sender_id: u128, message_id: u128 },
    KeepAlive,
    InvalidState,
}

pub enum ServerPacketView {
    Init(ServerInitView),
    Chat(ServerChatView),
}

impl View for ServerInitFailReason {
    type V = FailReasonView;

    open spec fn view(&self) -> FailReasonView {
        match *self {
            ServerInitFailReason::InvalidState => FailReasonView::InvalidState,
            ServerInitFailReason::InvalidPacket => FailReasonView::InvalidPacket,
            ServerInitFailReason::CompatibilityError(e) => FailReasonView::CompatibilityError(e),
            ServerInitFailReason::AlreadyConnected => FailReasonView::AlreadyConnected,
            ServerInitFailReason::Custom(text) => FailReasonView::Custom(text@),
        }
    }
}

impl View for ServerInitPacket {
    type V = ServerInitView;

    open spec fn view(&self) -> ServerInitView {
        match *self {
            ServerInitPacket::Success(info) => ServerInitView::Success(info),
            ServerInitPacket::Fail { reason } => ServerInitView::Fail { reason: reason@ },
        }
    }
}

impl View for MemberInfo {
    type V = MemberInfoView;

    open spec fn view(&self) -> MemberInfoView {
        MemberInfoView { name: self.name@, status: self.status }
    }
}

/// A list of entries as values, entry by entry.
pub open spec fn entries_view(entries: Seq<(u128, MemberInfo)>) -> Seq<(u128, MemberInfoView)> {
    Seq::new(entries.len(), |i: int| (entries[i].0, entries[i].1@))
}

impl View for ServerChatPacket {
    type V = ServerChatView;

    open spec fn view(&self) -> ServerChatView {
        match *self {
            ServerChatPacket::ServerInfo { name } => ServerChatView::ServerInfo { name: name@ },
            ServerChatPacket::SelfMember { member_id } => ServerChatView::SelfMember { member_id },
            ServerChatPacket::Members { member_ids } => ServerChatView::Members {
                member_ids: member_ids@,
            },
            ServerChatPacket::NewMember { member_id } => ServerChatView::NewMember { member_id },
            ServerChatPacket::RemoveMember { member_id } => ServerChatView::RemoveMember {
                member_id,
            },
            ServerChatPacket::MemberInfo { members } => ServerChatView::MemberInfo {
                members: entries_view(members@),
            },
            ServerChatPacket::NewMessage { sender_id, message_id, message } => {
                ServerChatView::NewMessage { sender_id, message_id, message: message@ }
            },
            ServerChatPacket::EditMessage { sender_id, message_id, message } => {
                ServerChatView::EditMessage { sender_id, message_id, message: message@ }
            },
            ServerChatPacket::RemoveMessage { sender_id, message_id } => {
                ServerChatView::RemoveMessage { sender_id, message_id }
            },
            ServerChatPacket::KeepAlive => ServerChatView::KeepAlive,
            ServerChatPacket::InvalidState => ServerChatView::InvalidState,
        }
    }
}

impl View for ServerPacket {
    type V = ServerPacketView;

    open spec fn view(&self) -> ServerPacketView {
        match *self {
            ServerPacket::Init(p) => ServerPacketView::Init(p@),
            ServerPacket::Chat(p) => ServerPacketView::Chat(p@),
        }
    }
}

impl ServerInitFailReason {
    /// What the reason says to a person.
    pub open spec fn message(self) -> Seq<char> {
        match self {
            ServerInitFailReason::InvalidState => "Invalid state (desync)"@,
            ServerInitFailReason::InvalidPacket => "Invalid packet"@,
            ServerInitFailReason::CompatibilityError(e) => e.message(),
            ServerInitFailReason::AlreadyConnected => "Already connected"@,
            ServerInitFailReason::Custom(text) => "Server message: "@ + text@,
        }
    }

    /// What the reason says to a person.
    pub fn to_text(&self) -> (text: String)
        ensures
            text@ == self.message(),
    {
        match self {
            ServerInitFailReason::InvalidState => String::from_str("Invalid state (desync)"),
            ServerInitFailReason::InvalidPacket => String::from_str("Invalid packet"),
            ServerInitFailReason::CompatibilityError(e) => e.to_text(),
            ServerInitFailReason::AlreadyConnected => String::from_str("Already connected"),
            ServerInitFailReason::Custom(custom) => {
                let mut text = String::from_str("Server message: ");
                push_text(&mut text, custom.as_str());
                text
            },
        }
    }
}

// ---------------------------------------------------------------------------
// Wire format of the handshake answer
// ---------------------------------------------------------------------------

pub open spec fn put_fail_reason(r: FailReasonView) -> Seq<u8> {
    match r {
        FailReasonView::InvalidState => put_u32(0),
        FailReasonView::InvalidPacket => put_u32(1),
        FailReasonView::CompatibilityError(e) => put_u32(2) + put_compat_error(e),
        FailReasonView::AlreadyConnected => put_u32(3),
        FailReasonView::Custom(text) => put_u32(4) + put_text(text),
    }
}

pub open spec fn take_fail_reason(s: Seq<u8>) -> Option<(FailReasonView, Seq<u8>)> {
    match take_u32(s) {
        Some((tag, s1)) => if tag == 0 {
            Some((FailReasonView::InvalidState, s1))
        } else if tag == 1 {
            Some((FailReasonView::InvalidPacket, s1))
        } else if tag == 2 {
            match take_compat_error(s1) {
                Some((e, s2)) => Some((FailReasonView::CompatibilityError(e), s2)),
                None => None,
            }
        } else if tag == 3 {
            Some((FailReasonView::AlreadyConnected, s1))
        } else if tag == 4 {
            match take_text(s1) {
                Some((text, s2)) => Some((FailReasonView::Custom(text), s2)),
                None => None,
            }
        } else {
            None
        },
        None => None,
    }
}

pub open spec fn put_server_init(p: ServerInitView) -> Seq<u8> {
    match p {
        ServerInitView::Success(info) => put_u32(0) + put_info(info),
        ServerInitView::Fail { reason } => put_u32(1) + put_fail_reason(reason),
    }
}

pub open spec fn take_server_init(s: Seq<u8>) -> Option<(ServerInitView, Seq<u8>)> {
    match take_u32(s) {
        Some((tag, s1)) => if tag == 0 {
            match take_info(s1) {
                Some((info, s2)) => Some((ServerInitView::Success(info), s2)),
                None => None,
            }
        } else if tag == 1 {
            match take_fail_reason(s1) {
                Some((reason, s2)) => Some((ServerInitView::Fail { reason }, s2)),
                None => None,
            }
        } else {
            None
        },
        None => None,
    }
}

pub proof fn lemma_fail_reason_round_trip(r: FailReasonView, rest: Seq<u8>)
    requires
        put_fail_reason(r).len() <= u64::MAX,
    ensures
        take_fail_reason(put_fail_reason(r) + rest) == Some((r, rest)),
{
    match r {
        FailReasonView::InvalidState => {
            lemma_u32_round_trip(0, rest);
        },
        FailReasonView::InvalidPacket => {
            lemma_u32_round_trip(1, rest);
        },
        FailReasonView::CompatibilityError(e) => {
            let t1 = put_compat_error(e) + rest;
            lemma_u32_round_trip(2, t1);
            lemma_compat_error_round_trip(e, rest);
            assert(put_fail_reason(r) + rest =~= put_u32(2) + t1);
        },
        FailReasonView::AlreadyConnected => {
            lemma_u32_round_trip(3, rest);
        },
        FailReasonView::Custom(text) => {
            let t1 = put_text(text) + rest;
            lemma_u32_round_trip(4, t1);
            lemma_text_round_trip(text, rest);
            assert(put_fail_reason(r) + rest =~= put_u32(4) + t1);
        },
    }
}

pub proof fn lemma_server_init_round_trip(p: ServerInitView, rest: Seq<u8>)
    requires
        put_server_init(p).len() <= u64::MAX,
    ensures
        take_server_init(put_server_init(p) + rest) == Some((p, rest)),
{
    match p {
        ServerInitView::Success(info) => {
            let t1 = put_info(info) + rest;
            lemma_u32_round_trip(0, t1);
            lemma_info_round_trip(info, rest);
            assert(put_server_init(p) + rest =~= put_u32(0) + t1);
        },
        ServerInitView::Fail { reason } => {
            let t1 = put_fail_reason(reason) + rest;
            lemma_u32_round_trip(1, t1);
            lemma_fail_reason_round_trip(reason, rest);
            assert(put_server_init(p) + rest =~= put_u32(1) + t1);
        },
    }
}

pub(crate) fn write_fail_reason(out: &mut Vec<u8>, r: &ServerInitFailReason)
    ensures
        final(out)@ == old(out)@ + put_fail_reason(r@),
{
    let ghost before = out@;
    match r {
        ServerInitFailReason::InvalidState => {
            write_u32(out, 0);
        },
        ServerInitFailReason::InvalidPacket => {
            write_u32(out, 1);
        },
        ServerInitFailReason::CompatibilityError(e) => {
            write_u32(out, 2);
            write_compat_error(out, e);
        },
        ServerInitFailReason::AlreadyConnected => {
            write_u32(out, 3);
        },
        ServerInitFailReason::Custom(text) => {
            write_u32(out, 4);
            write_text(out, text.as_str());
        },
    }
    assert(out@ =~= before + put_fail_reason(r@));
}

pub(crate) fn read_fail_reason(r: &mut Reader) -> (out: Option<ServerInitFailReason>)
    requires
        old(r).wf(),
    ensures
        final(r).wf(),
        match out {
            Some(p) => take_fail_reason(old(r).rest()) == Some((p@, final(r).rest())),
            None => take_fail_reason(old(r).rest()) is None,
        },
{
    let tag = match r.read_u32() {
        Some(v) => v,
        None => { return None; },
    };
    if tag == 0 {
        Some(ServerInitFailReason::InvalidState)
    } else if tag == 1 {
        Some(ServerInitFailReason::InvalidPacket)
    } else if tag == 2 {
        match read_compat_error(r) {
            Some(e) => Some(ServerInitFailReason::CompatibilityError(e)),
            None => None,
        }
    } else if tag == 3 {
        Some(ServerInitFailReason::AlreadyConnected)
    } else if tag == 4 {
        match r.read_text() {
            Some(text) => Some(ServerInitFailReason::Custom(text)),
            None => None,
        }
    } else {
        None
    }
}

pub(crate) fn write_server_init(out: &mut Vec<u8>, p: &ServerInitPacket)
    ensures
        final(out)@ == old(out)@ + put_server_init(p@),
{
    let ghost before = out@;
    match p {
        ServerInitPacket::Success(info) => {
            write_u32(out, 0);
            write_info(out, info);
        },
        ServerInitPacket::Fail { reason } => {
            write_u32(out, 1);
            write_fail_reason(out, reason);
        },
    }
    assert(out@ =~= before + put_server_init(p@));
}

pub(crate) fn read_server_init(r: &mut Reader) -> (out: Option<ServerInitPacket>)
    requires
        old(r).wf(),
    ensures
        final(r).wf(),
        match out {
            Some(p) => take_server_init(old(r).rest()) == Some((p@, final(r).rest())),
            None => take_server_init(old(r).rest()) is None,
        },
{
    let tag = match r.read_u32() {
        Some(v) => v,
        None => { return None; },
    };
    if tag == 0 {
        match read_info(r) {
            Some(info) => Some(ServerInitPacket::Success(info)),
            None => None,
        }
    } else if tag == 1 {
        match read_fail_reason(r) {
            Some(reason) => Some(ServerInitPacket::Fail { reason }),
            None => None,
        }
    } else {
        None
    }
}

// ---------------------------------------------------------------------------
// Wire format of member lists
// ---------------------------------------------------------------------------

pub open spec fn put_status(s: MemberStatus) -> Seq<u8> {
    match s {
        MemberStatus::Online => put_u32(0),
        MemberStatus::Dnd => put_u32(1),
        MemberStatus::Offline => put_u32(2),
    }
}

pub open spec fn take_status(s: Seq<u8>) -> Option<(MemberStatus, Seq<u8>)> {
    match take_u32(s) {
        Some((tag, s1)) => if tag == 0 {
            Some((MemberStatus::Online, s1))
        } else if tag == 1 {
            Some((MemberStatus::Dnd, s1))
        } else if tag == 2 {
            Some((MemberStatus::Offline, s1))
        } else {
            None
        },
        None => None,
    }
}

/// An entry of a member table: the member, its name, its status.
pub open spec fn put_entry(e: (u128, MemberInfoView)) -> Seq<u8> {
    put_id(e.0) + put_text(e.1.name) + put_status(e.1.status)
}

pub open spec fn take_entry(s: Seq<u8>) -> Option<((u128, MemberInfoView), Seq<u8>)> {
    match take_id(s) {
        Some((id, s1)) => match take_text(s1) {
            Some((name, s2)) => match take_status(s2) {
                Some((status, s3)) => Some(((id, MemberInfoView { name, status }), s3)),
                None => None,
            },
            None => None,
        },
        None => None,
    }
}

/// Identifiers one after the other.
pub open spec fn put_ids(ids: Seq<u128>) -> Seq<u8>
    decreases ids.len(),
{
    if ids.len() == 0 {
        Seq::empty()
    } else {
        put_ids(ids.drop_last()) + put_id(ids.last())
    }
}

/// The first `n` identifiers of `s`, and what follows them.
pub open spec fn take_ids(s: Seq<u8>, n: nat) -> Option<(Seq<u128>, Seq<u8>)>
    decreases n,
{
    if n == 0 {
        Some((Seq::empty(), s))
    } else {
        match take_ids(s, (n - 1) as nat) {
            Some((ids, s1)) => match take_id(s1) {
                Some((id, s2)) => Some((ids.push(id), s2)),
                None => None,
            },
            None => None,
        }
    }
}

/// Entries one after the other.
pub open spec fn put_entries(entries: Seq<(u128, MemberInfoView)>) -> Seq<u8>
    decreases entries.len(),
{
    if entries.len() == 0 {
        Seq::empty()
    } else {
        put_entries(entries.drop_last()) + put_entry(entries.last())
    }
}

/// The first `n` entries of `s`, and what follows them.
pub open spec fn take_entries(s: Seq<u8>, n: nat) -> Option<
    (Seq<(u128, MemberInfoView)>, Seq<u8>),
>
    decreases n,
{
    if n == 0 {
        Some((Seq::empty(), s))
    } else {
        match take_entries(s, (n - 1) as nat) {
            Some((entries, s1)) => match take_entry(s1) {
                Some((e, s2)) => Some((entries.push(e), s2)),
                None => None,
            },
            None => None,
        }
    }
}

/// No member has two entries.
pub open spec fn distinct_members(entries: Seq<(u128, MemberInfoView)>) -> bool {
    forall|i: int, j: int|
        0 <= i < j < entries.len() ==> (#[trigger] entries[i]).0 != (#[trigger] entries[j]).0
}

/// A member list travels as its length and its identifiers.
pub open spec fn put_member_ids(ids: Seq<u128>) -> Seq<u8> {
    put_u64(ids.len() as u64) + put_ids(ids)
}

/// A list that names a member twice is no member list.
pub open spec fn take_member_ids(s: Seq<u8>) -> Option<(Seq<u128>, Seq<u8>)> {
    match take_u64(s) {
        Some((n, s1)) => match take_ids(s1, n as nat) {
            Some((ids, s2)) => if ids.no_duplicates() {
                Some((ids, s2))
            } else {
                None
            },
            None => None,
        },
        None => None,
    }
}

/// A member table travels as its length and its entries.
pub open spec fn put_member_table(entries: Seq<(u128, MemberInfoView)>) -> Seq<u8> {
    put_u64(entries.len() as u64) + put_entries(entries)
}

/// A table with two entries for one member is no member table.
pub open spec fn take_member_table(s: Seq<u8>) -> Option<
    (Seq<(u128, MemberInfoView)>, Seq<u8>),
> {
    match take_u64(s) {
        Some((n, s1)) => match take_entries(s1, n as nat) {
            Some((entries, s2)) => if distinct_members(entries) {
                Some((entries, s2))
            } else {
                None
            },
            None => None,
        },
        None => None,
    }
}

pub proof fn lemma_status_round_trip(s: MemberStatus, rest: Seq<u8>)
    ensures
        put_status(s).len() == 4,
        take_status(put_status(s) + rest) == Some((s, rest)),
{
    match s {
        MemberStatus::Online => lemma_u32_round_trip(0, rest),
        MemberStatus::Dnd => lemma_u32_round_trip(1, rest),
        MemberStatus::Offline => lemma_u32_round_trip(2, rest),
    }
}

pub proof fn lemma_entry_round_trip(e: (u128, MemberInfoView), rest: Seq<u8>)
    requires
        put_entry(e).len() <= u64::MAX,
    ensures
        take_entry(put_entry(e) + rest) == Some((e, rest)),
{
    let t2 = put_status(e.1.status) + rest;
    let t1 = put_text(e.1.name) + t2;
    lemma_id_round_trip(e.0, t1);
    lemma_text_round_trip(e.1.name, t2);
    lemma_status_round_trip(e.1.status, rest);
    assert(put_entry(e) + rest =~= put_id(e.0) + t1);
}

pub proof fn lemma_put_ids_len(ids: Seq<u128>)
    ensures
        put_ids(ids).len() == 24 * ids.len(),
    decreases ids.len(),
{
    if ids.len() > 0 {
        lemma_put_ids_len(ids.drop_last());
        lemma_id_round_trip(ids.last(), Seq::empty());
    }
}

pub proof fn lemma_ids_round_trip(ids: Seq<u128>, rest: Seq<u8>)
    ensures
        take_ids(put_ids(ids) + rest, ids.len()) == Some((ids, rest)),
    decreases ids.len(),
{
    if ids.len() == 0 {
        assert(put_ids(ids) + rest =~= rest);
        assert(ids =~= Seq::<u128>::empty());
    } else {
        let init = ids.drop_last();
        let t1 = put_id(ids.last()) + rest;
        lemma_ids_round_trip(init, t1);
        lemma_id_round_trip(ids.last(), rest);
        assert(put_ids(ids) + rest =~= put_ids(init) + t1);
        assert(init.push(ids.last()) =~= ids);
    }
}

pub proof fn lemma_put_entries_len(entries: Seq<(u128, MemberInfoView)>, i: int)
    requires
        0 <= i < entries.len(),
    ensures
        put_entry(entries[i]).len() <= put_entries(entries).len(),
        entries.len() <= put_entries(entries).len(),
    decreases entries.len(),
{
    let init = entries.drop_last();
    lemma_id_round_trip(entries.last().0, Seq::empty());
    if init.len() > 0 {
        lemma_put_entries_len(init, if i < init.len() { i } else { 0 });
    }
}

pub proof fn lemma_entries_round_trip(entries: Seq<(u128, MemberInfoView)>, rest: Seq<u8>)
    requires
        put_entries(entries).len() <= u64::MAX,
    ensures
        take_entries(put_entries(entries) + rest, entries.len()) == Some((entries, rest)),
    decreases entries.len(),
{
    if entries.len() == 0 {
        assert(put_entries(entries) + rest =~= rest);
        assert(entries =~= Seq::<(u128, MemberInfoView)>::empty());
    } else {
        let init = entries.drop_last();
        let t1 = put_entry(entries.last()) + rest;
        lemma_entries_round_trip(init, t1);
        lemma_entry_round_trip(entries.last(), rest);
        assert(put_entries(entries) + rest =~= put_entries(init) + t1);
        assert(init.push(entries.last()) =~= entries);
    }
}

/// Once reading has failed, reading more fails too.
pub proof fn lemma_take_ids_stays_none(s: Seq<u8>, i: nat, n: nat)
    requires
        i <= n,
        take_ids(s, i) is None,
    ensures
        take_ids(s, n) is None,
    decreases n,
{
    if i < n {
        lemma_take_ids_stays_none(s, i, (n - 1) as nat);
    }
}

/// Reading fewer identifiers gives the front of what reading more gives.
pub proof fn lemma_take_ids_front(s: Seq<u8>, i: nat, n: nat)
    requires
        i <= n,
        take_ids(s, n) is Some,
    ensures
        take_ids(s, i) is Some,
        take_ids(s, i).unwrap().0 == take_ids(s, n).unwrap().0.take(i as int),
        take_ids(s, n).unwrap().0.len() == n,
    decreases n,
{
    if n == 0 {
        assert(take_ids(s, n).unwrap().0.take(0) =~= take_ids(s, i).unwrap().0);
    } else {
        let prev = take_ids(s, (n - 1) as nat);
        if i < n {
            lemma_take_ids_front(s, i, (n - 1) as nat);
            assert(prev.unwrap().0.take(i as int) =~= take_ids(s, n).unwrap().0.take(i as int));
        } else {
            lemma_take_ids_front(s, (n - 1) as nat, (n - 1) as nat);
            assert(take_ids(s, n).unwrap().0.take(n as int) =~= take_ids(s, n).unwrap().0);
        }
    }
}

pub proof fn lemma_take_entries_stays_none(s: Seq<u8>, i: nat, n: nat)
    requires
        i <= n,
        take_entries(s, i) is None,
    ensures
        take_entries(s, n) is None,
    decreases n,
{
    if i < n {
        lemma_take_entries_stays_none(s, i, (n - 1) as nat);
    }
}

pub proof fn lemma_take_entries_front(s: Seq<u8>, i: nat, n: nat)
    requires
        i <= n,
        take_entries(s, n) is Some,
    ensures
        take_entries(s, i) is Some,
        take_entries(s, i).unwrap().0 == take_entries(s, n).unwrap().0.take(i as int),
        take_entries(s, n).unwrap().0.len() == n,
    decreases n,
{
    if n == 0 {
        assert(take_entries(s, n).unwrap().0.take(0) =~= take_entries(s, i).unwrap().0);
    } else {
        let prev = take_entries(s, (n - 1) as nat);
        if i < n {
            lemma_take_entries_front(s, i, (n - 1) as nat);
            assert(prev.unwrap().0.take(i as int) =~= take_entries(s, n).unwrap().0.take(i as int));
        } else {
            lemma_take_entries_front(s, (n - 1) as nat, (n - 1) as nat);
            assert(take_entries(s, n).unwrap().0.take(n as int) =~= take_entries(s, n).unwrap().0);
        }
    }
}

pub proof fn lemma_member_ids_round_trip(ids: Seq<u128>, rest: Seq<u8>)
    requires
        ids.no_duplicates(),
        ids.len() <= u64::MAX,
    ensures
        take_member_ids(put_member_ids(ids) + rest) == Some((ids, rest)),
{
    let t1 = put_ids(ids) + rest;
    lemma_u64_round_trip(ids.len() as u64, t1);
    lemma_ids_round_trip(ids, rest);
    assert(put_member_ids(ids) + rest =~= put_u64(ids.len() as u64) + t1);
}

pub proof fn lemma_member_table_round_trip(entries: Seq<(u128, MemberInfoView)>, rest: Seq<u8>)
    requires
        distinct_members(entries),
        put_entries(entries).len() <= u64::MAX,
    ensures
        take_member_table(put_member_table(entries) + rest) == Some((entries, rest)),
{
    if entries.len() > 0 {
        lemma_put_entries_len(entries, 0);
    }
    let t1 = put_entries(entries) + rest;
    lemma_u64_round_trip(entries.len() as u64, t1);
    lemma_entries_round_trip(entries, rest);
    assert(put_member_table(entries) + rest =~= put_u64(entries.len() as u64) + t1);
}

// ---------------------------------------------------------------------------
// Wire format of chat packets and of the envelope
// ---------------------------------------------------------------------------

pub open spec fn put_server_chat(p: ServerChatView) -> Seq<u8> {
    match p {
        ServerChatView::ServerInfo { name } => put_u32(0) + put_text(name),
        ServerChatView::SelfMember { member_id } => put_u32(1) + put_id(member_id),
        ServerChatView::Members { member_ids } => put_u32(2) + put_member_ids(member_ids),
        ServerChatView::NewMember { member_id } => put_u32(3) + put_id(member_id),
        ServerChatView::RemoveMember { member_id } => put_u32(4) + put_id(member_id),
        ServerChatView::MemberInfo { members } => put_u32(5) + put_member_table(members),
        ServerChatView::NewMessage { sender_id, message_id, message } => put_u32(6) + put_id(
            sender_id,
        ) + put_id(message_id) + put_text(message),
        ServerChatView::EditMessage { sender_id, message_id, message } => put_u32(7) + put_id(
            sender_id,
        ) + put_id(message_id) + put_text(message),
        ServerChatView::RemoveMessage { sender_id, message_id } => put_u32(8) + put_id(sender_id)
            + put_id(message_id),
        ServerChatView::KeepAlive => put_u32(9),
        ServerChatView::InvalidState => put_u32(10),
    }
}

pub open spec fn take_server_chat(s: Seq<u8>) -> Option<(ServerChatView, Seq<u8>)> {
    match take_u32(s) {
        Some((tag, s1)) => if tag == 0 {
            match take_text(s1) {
                Some((name, s2)) => Some((ServerChatView::ServerInfo { name }, s2)),
                None => None,
            }
        } else if tag == 1 || tag == 3 || tag == 4 {
            match take_id(s1) {
                Some((member_id, s2)) => if tag == 1 {
                    Some((ServerChatView::SelfMember { member_id }, s2))
                } else if tag == 3 {
                    Some((ServerChatView::NewMember { member_id }, s2))
                } else {
                    Some((ServerChatView::RemoveMember { member_id }, s2))
                },
                None => None,
            }
        } else if tag == 2 {
            match take_member_ids(s1) {
                Some((member_ids, s2)) => Some((ServerChatView::Members { member_ids }, s2)),
                None => None,
            }
        } else if tag == 5 {
            match take_member_table(s1) {
                Some((members, s2)) => Some((ServerChatView::MemberInfo { members }, s2)),
                None => None,
            }
        } else if tag == 6 || tag == 7 {
            match take_id(s1) {
                Some((sender_id, s2)) => match take_id(s2) {
                    Some((message_id, s3)) => match take_text(s3) {
                        Some((message, s4)) => if tag == 6 {
                            Some(
                                (ServerChatView::NewMessage { sender_id, message_id, message }, s4),
                            )
                        } else {
                            Some(
                                (
                                    ServerChatView::EditMessage { sender_id, message_id, message },
                                    s4,
                                ),
                            )
                        },
                        None => None,
                    },
                    None => None,
                },
                None => None,
            }
        } else if tag == 8 {
            match take_id(s1) {
                Some((sender_id, s2)) => match take_id(s2) {
                    Some((message_id, s3)) => Some(
                        (ServerChatView::RemoveMessage { sender_id, message_id }, s3),
                    ),
                    None => None,
                },
                None => None,
            }
        } else if tag == 9 {
            Some((ServerChatView::KeepAlive, s1))
        } else if tag == 10 {
            Some((ServerChatView::InvalidState, s1))
        } else {
            None
        },
        None => None,
    }
}

pub open spec fn put_server_packet(p: ServerPacketView) -> Seq<u8> {
    match p {
        ServerPacketView::Init(init) => put_u32(0) + put_server_init(init),
        ServerPacketView::Chat(chat) => put_u32(1) + put_server_chat(chat),
    }
}

pub open spec fn take_server_packet(s: Seq<u8>) -> Option<(ServerPacketView, Seq<u8>)> {
    match take_u32(s) {
        Some((tag, s1)) => if tag == 0 {
            match take_server_init(s1) {
                Some((init, s2)) => Some((ServerPacketView::Init(init), s2)),
                None => None,
            }
        } else if tag == 1 {
            match take_server_chat(s1) {
                Some((chat, s2)) => Some((ServerPacketView::Chat(chat), s2)),
                None => None,
            }
        } else {
            None
        },
        None => None,
    }
}

/// The packet at the front of a buffer's window.
pub open spec fn server_packet_in(buffer: Seq<u8>) -> Option<ServerPacketView> {
    match take_server_packet(window(buffer)) {
        Some((p, _)) => Some(p),
        None => None,
    }
}

/// A chat packet is valid when its member list, if it has one, names each
/// member once.
pub open spec fn valid_server_chat(p: ServerChatView) -> bool {
    match p {
        ServerChatView::Members { member_ids } => member_ids.no_duplicates(),
        ServerChatView::MemberInfo { members } => distinct_members(members),
        _ => true,
    }
}

pub open spec fn valid_server_packet(p: ServerPacketView) -> bool {
    match p {
        ServerPacketView::Init(_) => true,
        ServerPacketView::Chat(chat) => valid_server_chat(chat),
    }
}

proof fn lemma_chat_messages_round_trip(p: ServerChatView, rest: Seq<u8>)
    requires
        p is NewMessage || p is EditMessage || p is RemoveMessage,
        put_server_chat(p).len() <= u64::MAX,
    ensures
        take_server_chat(put_server_chat(p) + rest) == Some((p, rest)),
{
    match p {
        ServerChatView::NewMessage { sender_id, message_id, message } => {
            let t3 = put_text(message) + rest;
            let t2 = put_id(message_id) + t3;
            let t1 = put_id(sender_id) + t2;
            lemma_u32_round_trip(6, t1);
            lemma_id_round_trip(sender_id, t2);
            lemma_id_round_trip(message_id, t3);
            lemma_text_round_trip(message, rest);
            assert(put_server_chat(p) + rest =~= put_u32(6) + t1);
        },
        ServerChatView::EditMessage { sender_id, message_id, message } => {
            let t3 = put_text(message) + rest;
            let t2 = put_id(message_id) + t3;
            let t1 = put_id(sender_id) + t2;
            lemma_u32_round_trip(7, t1);
            lemma_id_round_trip(sender_id, t2);
            lemma_id_round_trip(message_id, t3);
            lemma_text_round_trip(message, rest);
            assert(put_server_chat(p) + rest =~= put_u32(7) + t1);
        },
        ServerChatView::RemoveMessage { sender_id, message_id } => {
            let t2 = put_id(message_id) + rest;
            let t1 = put_id(sender_id) + t2;
            lemma_u32_round_trip(8, t1);
            lemma_id_round_trip(sender_id, t2);
            lemma_id_round_trip(message_id, rest);
            assert(put_server_chat(p) + rest =~= put_u32(8) + t1);
        },
        _ => {},
    }
}

proof fn lemma_chat_members_round_trip(p: ServerChatView, rest: Seq<u8>)
    requires
        p is SelfMember || p is Members || p is NewMember || p is RemoveMember || p is MemberInfo,
        valid_server_chat(p),
        put_server_chat(p).len() <= u64::MAX,
    ensures
        take_server_chat(put_server_chat(p) + rest) == Some((p, rest)),
{
    match p {
        ServerChatView::SelfMember { member_id } => {
            let t1 = put_id(member_id) + rest;
            lemma_u32_round_trip(1, t1);
            lemma_id_round_trip(member_id, rest);
            assert(put_server_chat(p) + rest =~= put_u32(1) + t1);
        },
        ServerChatView::Members { member_ids } => {
            let t1 = put_member_ids(member_ids) + rest;
            lemma_u32_round_trip(2, t1);
            lemma_put_ids_len(member_ids);
            lemma_member_ids_round_trip(member_ids, rest);
            assert(put_server_chat(p) + rest =~= put_u32(2) + t1);
        },
        ServerChatView::NewMember { member_id } => {
            let t1 = put_id(member_id) + rest;
            lemma_u32_round_trip(3, t1);
            lemma_id_round_trip(member_id, rest);
            assert(put_server_chat(p) + rest =~= put_u32(3) + t1);
        },
        ServerChatView::RemoveMember { member_id } => {
            let t1 = put_id(member_id) + rest;
            lemma_u32_round_trip(4, t1);
            lemma_id_round_trip(member_id, rest);
            assert(put_server_chat(p) + rest =~= put_u32(4) + t1);
        },
        ServerChatView::MemberInfo { members } => {
            let t1 = put_member_table(members) + rest;
            lemma_u32_round_trip(5, t1);
            lemma_member_table_round_trip(members, rest);
            assert(put_server_chat(p) + rest =~= put_u32(5) + t1);
        },
        _ => {},
    }
}

pub proof fn lemma_server_chat_round_trip(p: ServerChatView, rest: Seq<u8>)
    requires
        valid_server_chat(p),
        put_server_chat(p).len() <= u64::MAX,
    ensures
        take_server_chat(put_server_chat(p) + rest) == Some((p, rest)),
{
    match p {
        ServerChatView::ServerInfo { name } => {
            let t1 = put_text(name) + rest;
            lemma_u32_round_trip(0, t1);
            lemma_text_round_trip(name, rest);
            assert(put_server_chat(p) + rest =~= put_u32(0) + t1);
        },
        ServerChatView::KeepAlive => {
            lemma_u32_round_trip(9, rest);
        },
        ServerChatView::InvalidState => {
            lemma_u32_round_trip(10, rest);
        },
        ServerChatView::NewMessage { .. }
        | ServerChatView::EditMessage { .. }
        | ServerChatView::RemoveMessage { .. } => {
            lemma_chat_messages_round_trip(p, rest);
        },
        _ => {
            lemma_chat_members_round_trip(p, rest);
        },
    }
}

pub proof fn lemma_server_packet_round_trip(p: ServerPacketView, rest: Seq<u8>)
    requires
        valid_server_packet(p),
        put_server_packet(p).len() <= u64::MAX,
    ensures
        take_server_packet(put_server_packet(p) + rest) == Some((p, rest)),
{
    match p {
        ServerPacketView::Init(init) => {
            let t1 = put_server_init(init) + rest;
            lemma_u32_round_trip(0, t1);
            lemma_server_init_round_trip(init, rest);
            assert(put_server_packet(p) + rest =~= put_u32(0) + t1);
        },
        ServerPacketView::Chat(chat) => {
            let t1 = put_server_chat(chat) + rest;
            lemma_u32_round_trip(1, t1);
            lemma_server_chat_round_trip(chat, rest);
            assert(put_server_packet(p) + rest =~= put_u32(1) + t1);
        },
    }
}

/// Decoding what was encoded gives the packet back: for every valid packet
/// whose encoding fits under the ceiling, and whatever bytes follow the
/// encoding in the buffer.
pub proof fn server_packet_round_trip(p: ServerPacketView, trailing: Seq<u8>)
    requires
        valid_server_packet(p),
        put_server_packet(p).len() <= MAX_PACKET_BYTES,
    ensures
        server_packet_in(put_server_packet(p) + trailing) == Some(p),
{
    let wire = put_server_packet(p);
    lemma_window_keeps_prefix(wire, trailing);
    let tail = choose|tail: Seq<u8>| window(wire + trailing) == wire + tail;
    lemma_server_packet_round_trip(p, tail);
}

pub proof fn lemma_take_ids_exact(s: Seq<u8>, n: nat)
    requires
        take_ids(s, n) is Some,
    ensures
        s == put_ids(take_ids(s, n).unwrap().0) + take_ids(s, n).unwrap().1,
    decreases n,
{
    if n == 0 {
        assert(s =~= put_ids(Seq::<u128>::empty()) + s);
    } else {
        let before = take_ids(s, (n - 1) as nat).unwrap();
        lemma_take_ids_exact(s, (n - 1) as nat);
        lemma_id_exact(before.1);
        let last = take_id(before.1).unwrap();
        let ids = take_ids(s, n).unwrap().0;
        assert(ids.drop_last() =~= before.0);
        assert(ids.last() == last.0);
        assert(s =~= put_ids(ids) + last.1);
    }
}

pub proof fn lemma_entry_exact(s: Seq<u8>)
    requires
        take_entry(s) is Some,
    ensures
        s == put_entry(take_entry(s).unwrap().0) + take_entry(s).unwrap().1,
{
    lemma_id_exact(s);
    let s1 = take_id(s).unwrap().1;
    lemma_text_exact(s1);
    let s2 = take_text(s1).unwrap().1;
    lemma_u32_exact(s2);
    let e = take_entry(s).unwrap().0;
    assert(s =~= put_entry(e) + take_entry(s).unwrap().1);
}

pub proof fn lemma_take_entries_exact(s: Seq<u8>, n: nat)
    requires
        take_entries(s, n) is Some,
    ensures
        s == put_entries(take_entries(s, n).unwrap().0) + take_entries(s, n).unwrap().1,
    decreases n,
{
    if n == 0 {
        assert(s =~= put_entries(Seq::<(u128, MemberInfoView)>::empty()) + s);
    } else {
        let before = take_entries(s, (n - 1) as nat).unwrap();
        lemma_take_entries_exact(s, (n - 1) as nat);
        lemma_entry_exact(before.1);
        let last = take_entry(before.1).unwrap();
        let entries = take_entries(s, n).unwrap().0;
        assert(entries.drop_last() =~= before.0);
        assert(entries.last() == last.0);
        assert(s =~= put_entries(entries) + last.1);
    }
}

pub proof fn lemma_server_init_exact(s: Seq<u8>)
    requires
        take_server_init(s) is Some,
    ensures
        s == put_server_init(take_server_init(s).unwrap().0) + take_server_init(s).unwrap().1,
{
    lemma_u32_exact(s);
    let tag = take_u32(s).unwrap().0;
    let s1 = take_u32(s).unwrap().1;
    let p = take_server_init(s).unwrap().0;
    let rest = take_server_init(s).unwrap().1;
    if tag == 0 {
        lemma_info_exact(s1);
    } else {
        lemma_u32_exact(s1);
        let reason = take_u32(s1).unwrap().0;
        let s2 = take_u32(s1).unwrap().1;
        if reason == 2 {
            lemma_compat_error_exact(s2);
        } else if reason == 4 {
            lemma_text_exact(s2);
        }
        assert(s1 =~= put_fail_reason(take_fail_reason(s1).unwrap().0) + rest);
    }
    assert(s =~= put_server_init(p) + rest);
}

proof fn lemma_server_chat_lists_exact(s: Seq<u8>)
    requires
        take_server_chat(s) is Some,
        take_u32(s).unwrap().0 == 2 || take_u32(s).unwrap().0 == 5,
    ensures
        s == put_server_chat(take_server_chat(s).unwrap().0) + take_server_chat(s).unwrap().1,
{
    lemma_u32_exact(s);
    let tag = take_u32(s).unwrap().0;
    let s1 = take_u32(s).unwrap().1;
    let p = take_server_chat(s).unwrap().0;
    let rest = take_server_chat(s).unwrap().1;
    lemma_u64_exact(s1);
    let n = take_u64(s1).unwrap().0;
    let s2 = take_u64(s1).unwrap().1;
    if tag == 2 {
        lemma_take_ids_exact(s2, n as nat);
        lemma_take_ids_front(s2, n as nat, n as nat);
        let ids = take_ids(s2, n as nat).unwrap().0;
        assert(s1 =~= put_member_ids(ids) + rest);
    } else {
        lemma_take_entries_exact(s2, n as nat);
        lemma_take_entries_front(s2, n as nat, n as nat);
        let entries = take_entries(s2, n as nat).unwrap().0;
        assert(s1 =~= put_member_table(entries) + rest);
    }
    assert(s =~= put_server_chat(p) + rest);
}

pub proof fn lemma_server_chat_exact(s: Seq<u8>)
    requires
        take_server_chat(s) is Some,
    ensures
        s == put_server_chat(take_server_chat(s).unwrap().0) + take_server_chat(s).unwrap().1,
{
    lemma_u32_exact(s);
    let tag = take_u32(s).unwrap().0;
    let s1 = take_u32(s).unwrap().1;
    let p = take_server_chat(s).unwrap().0;
    let rest = take_server_chat(s).unwrap().1;
    if tag == 2 || tag == 5 {
        lemma_server_chat_lists_exact(s);
    } else {
        if tag == 0 {
            lemma_text_exact(s1);
        } else if tag == 1 || tag == 3 || tag == 4 {
            lemma_id_exact(s1);
        } else if tag == 6 || tag == 7 {
            lemma_id_exact(s1);
            let s2 = take_id(s1).unwrap().1;
            lemma_id_exact(s2);
            lemma_text_exact(take_id(s2).unwrap().1);
        } else if tag == 8 {
            lemma_id_exact(s1);
            lemma_id_exact(take_id(s1).unwrap().1);
        }
        assert(s =~= put_server_chat(p) + rest);
    }
}

pub proof fn lemma_server_packet_exact(s: Seq<u8>)
    requires
        take_server_packet(s) is Some,
    ensures
        s == put_server_packet(take_server_packet(s).unwrap().0) + take_server_packet(
            s,
        ).unwrap().1,
{
    lemma_u32_exact(s);
    let envelope = take_u32(s).unwrap().0;
    let s1 = take_u32(s).unwrap().1;
    if envelope == 0 {
        lemma_server_init_exact(s1);
    } else {
        lemma_server_chat_exact(s1);
    }
    let p = take_server_packet(s).unwrap().0;
    assert(s =~= put_server_packet(p) + take_server_packet(s).unwrap().1);
}

/// A buffer decodes to a packet only where its window begins with that
/// packet's encoding: nothing else is taken for the packet.
pub proof fn server_packet_decodes_only_its_encoding(buffer: Seq<u8>)
    requires
        server_packet_in(buffer) is Some,
    ensures
        exists|rest: Seq<u8>|
            window(buffer) == put_server_packet(server_packet_in(buffer).unwrap()) + rest,
        put_server_packet(server_packet_in(buffer).unwrap()).len() <= MAX_PACKET_BYTES,
{
    lemma_server_packet_exact(window(buffer));
    let rest = take_server_packet(window(buffer)).unwrap().1;
    assert(window(buffer) == put_server_packet(server_packet_in(buffer).unwrap()) + rest);
}

/// A member list of the largest size that packets are sized for still fits
/// under the ceiling.
pub proof fn full_member_list_fits(member_ids: Seq<u128>)
    requires
        member_ids.len() <= MAX_MEMBERS,
    ensures
        put_server_packet(ServerPacketView::Chat(ServerChatView::Members { member_ids })).len()
            <= MAX_PACKET_BYTES,
{
    lemma_put_ids_len(member_ids);
    lemma_u32_round_trip(1, Seq::empty());
    lemma_u32_round_trip(2, Seq::empty());
    lemma_u64_round_trip(member_ids.len() as u64, Seq::empty());
}

/// Whatever decodes is valid.
pub proof fn decoded_server_packet_is_valid(buffer: Seq<u8>)
    ensures
        server_packet_in(buffer) matches Some(p) ==> valid_server_packet(p),
{
}

// ---------------------------------------------------------------------------
// Encoding and decoding
// ---------------------------------------------------------------------------

pub(crate) fn write_status(out: &mut Vec<u8>, s: &MemberStatus)
    ensures
        final(out)@ == old(out)@ + put_status(*s),
{
    match s {
        MemberStatus::Online => write_u32(out, 0),
        MemberStatus::Dnd => write_u32(out, 1),
        MemberStatus::Offline => write_u32(out, 2),
    }
}

pub(crate) fn read_status(r: &mut Reader) -> (out: Option<MemberStatus>)
    requires
        old(r).wf(),
    ensures
        final(r).wf(),
        match out {
            Some(p) => take_status(old(r).rest()) == Some((p, final(r).rest())),
            None => take_status(old(r).rest()) is None,
        },
{
    let tag = match r.read_u32() {
        Some(v) => v,
        None => { return None; },
    };
    if tag == 0 {
        Some(MemberStatus::Online)
    } else if tag == 1 {
        Some(MemberStatus::Dnd)
    } else if tag == 2 {
        Some(MemberStatus::Offline)
    } else {
        None
    }
}

pub(crate) fn write_entry(out: &mut Vec<u8>, id: u128, info: &MemberInfo)
    ensures
        final(out)@ == old(out)@ + put_entry((id, info@)),
{
    let ghost before = out@;
    write_id(out, id);
    write_text(out, info.name.as_str());
    write_status(out, &info.status);
    assert(out@ =~= before + put_entry((id, info@)));
}

pub(crate) fn read_entry(r: &mut Reader) -> (out: Option<(u128, MemberInfo)>)
    requires
        old(r).wf(),
    ensures
        final(r).wf(),
        match out {
            Some(e) => take_entry(old(r).rest()) == Some(((e.0, e.1@), final(r).rest())),
            None => take_entry(old(r).rest()) is None,
        },
{
    let id = match r.read_id() {
        Some(v) => v,
        None => { return None; },
    };
    let name = match r.read_text() {
        Some(v) => v,
        None => { return None; },
    };
    let status = match read_status(r) {
        Some(v) => v,
        None => { return None; },
    };
    Some((id, MemberInfo { name, status }))
}

pub(crate) fn write_member_ids(out: &mut Vec<u8>, ids: &Vec<u128>)
    ensures
        final(out)@ == old(out)@ + put_member_ids(ids@),
{
    let ghost before = out@;
    let n: usize = ids.len();
    write_u64(out, n as u64);
    let mut i: usize = 0;
    while i < n
        invariant
            i <= n,
            n == ids@.len(),
            out@ == before + put_u64(n as u64) + put_ids(ids@.take(i as int)),
        decreases n - i,
    {
        write_id(out, ids[i]);
        proof {
            let next = ids@.take(i + 1);
            assert(next.drop_last() =~= ids@.take(i as int));
            assert(next.last() == ids@[i as int]);
            assert(out@ =~= before + put_u64(n as u64) + put_ids(next));
        }
        i = i + 1;
    }
    assert(ids@.take(n as int) =~= ids@);
    assert(out@ =~= before + put_member_ids(ids@));
}

pub(crate) fn write_member_table(out: &mut Vec<u8>, entries: &Vec<(u128, MemberInfo)>)
    ensures
        final(out)@ == old(out)@ + put_member_table(entries_view(entries@)),
{
    let ghost before = out@;
    let ghost all = entries_view(entries@);
    let n: usize = entries.len();
    write_u64(out, n as u64);
    let mut i: usize = 0;
    while i < n
        invariant
            i <= n,
            n == entries@.len(),
            all == entries_view(entries@),
            out@ == before + put_u64(n as u64) + put_entries(all.take(i as int)),
        decreases n - i,
    {
        write_entry(out, entries[i].0, &entries[i].1);
        proof {
            let next = all.take(i + 1);
            assert(next.drop_last() =~= all.take(i as int));
            assert(next.last() == (entries@[i as int].0, entries@[i as int].1@));
            assert(out@ =~= before + put_u64(n as u64) + put_entries(next));
        }
        i = i + 1;
    }
    assert(all.take(n as int) =~= all);
    assert(out@ =~= before + put_member_table(all));
}

pub(crate) fn read_member_ids(r: &mut Reader) -> (out: Option<Vec<u128>>)
    requires
        old(r).wf(),
    ensures
        final(r).wf(),
        match out {
            Some(ids) => take_member_ids(old(r).rest()) == Some((ids@, final(r).rest())),
            None => take_member_ids(old(r).rest()) is None,
        },
{
    let n = match r.read_u64() {
        Some(v) => v,
        None => { return None; },
    };
    let ghost start = r.rest();
    let mut ids: Vec<u128> = Vec::new();
    let mut seen: HashSet<u128> = HashSet::new();
    let mut i: u64 = 0;
    while i < n
        invariant
            r.wf(),
            i <= n,
            ids@.len() == i,
            ids@.no_duplicates(),
            forall|k: u128| seen@.contains(k) <==> ids@.contains(k),
            take_u64(old(r).rest()) == Some((n, start)),
            take_ids(start, i as nat) == Some((ids@, r.rest())),
        decreases n - i,
    {
        let id = match r.read_id() {
            Some(v) => v,
            None => {
                proof {
                    lemma_take_ids_stays_none(start, (i + 1) as nat, n as nat);
                }
                return None;
            },
        };
        let fresh = seen.insert(id);
        if !fresh {
            proof {
                if take_ids(start, n as nat) is Some {
                    let full = take_ids(start, n as nat).unwrap().0;
                    lemma_take_ids_front(start, (i + 1) as nat, n as nat);
                    assert(full.take(i + 1) == ids@.push(id));
                    let j = choose|j: int| 0 <= j < ids@.len() && ids@[j] == id;
                    assert(full[j] == full.take(i + 1)[j]);
                    assert(full[i as int] == full.take(i + 1)[i as int]);
                    assert(!full.no_duplicates());
                }
            }
            return None;
        }
        let ghost before = ids@;
        ids.push(id);
        proof {
            assert forall|k: u128| seen@.contains(k) <==> ids@.contains(k) by {
                if before.contains(k) {
                    let j = choose|j: int| 0 <= j < before.len() && before[j] == k;
                    assert(ids@[j] == k);
                }
                assert(ids@[before.len() as int] == id);
                if ids@.contains(k) && k != id {
                    let j = choose|j: int| 0 <= j < ids@.len() && ids@[j] == k;
                    assert(before[j] == k);
                }
            }
            assert(ids@.no_duplicates()) by {
                assert forall|a: int, b: int| 0 <= a < ids@.len() && 0 <= b < ids@.len() && a != b
                    implies ids@[a] != ids@[b] by {
                    if a < before.len() {
                        assert(before.contains(ids@[a]));
                    }
                    if b < before.len() {
                        assert(before.contains(ids@[b]));
                    }
                }
            }
        }
        i = i + 1;
    }
    Some(ids)
}

pub(crate) fn read_member_table(r: &mut Reader) -> (out: Option<Vec<(u128, MemberInfo)>>)
    requires
        old(r).wf(),
    ensures
        final(r).wf(),
        match out {
            Some(entries) => take_member_table(old(r).rest()) == Some(
                (entries_view(entries@), final(r).rest()),
            ),
            None => take_member_table(old(r).rest()) is None,
        },
{
    let n = match r.read_u64() {
        Some(v) => v,
        None => { return None; },
    };
    let ghost start = r.rest();
    let mut entries: Vec<(u128, MemberInfo)> = Vec::new();
    let mut seen: HashSet<u128> = HashSet::new();
    let mut i: u64 = 0;
    while i < n
        invariant
            r.wf(),
            i <= n,
            entries@.len() == i,
            distinct_members(entries_view(entries@)),
            forall|k: u128|
                seen@.contains(k) <==> exists|j: int|
                    0 <= j < entries@.len() && (#[trigger] entries@[j]).0 == k,
            take_u64(old(r).rest()) == Some((n, start)),
            take_entries(start, i as nat) == Some((entries_view(entries@), r.rest())),
        decreases n - i,
    {
        let entry = match read_entry(r) {
            Some(v) => v,
            None => {
                proof {
                    lemma_take_entries_stays_none(start, (i + 1) as nat, n as nat);
                }
                return None;
            },
        };
        let fresh = seen.insert(entry.0);
        if !fresh {
            proof {
                if take_entries(start, n as nat) is Some {
                    let full = take_entries(start, n as nat).unwrap().0;
                    lemma_take_entries_front(start, (i + 1) as nat, n as nat);
                    let shown = entries_view(entries@).push((entry.0, entry.1@));
                    assert(full.take(i + 1) == shown);
                    let j = choose|j: int| 0 <= j < entries@.len() && (#[trigger] entries@[j]).0
                        == entry.0;
                    assert(full[j] == full.take(i + 1)[j]);
                    assert(full[i as int] == full.take(i + 1)[i as int]);
                    assert(shown[j].0 == entry.0);
                    assert(!distinct_members(full));
                }
            }
            return None;
        }
        let ghost before = entries@;
        let ghost key = entry.0;
        let ghost shown = (entry.0, entry.1@);
        entries.push(entry);
        proof {
            assert(entries_view(entries@) =~= entries_view(before).push(shown));
            assert forall|k: u128|
                seen@.contains(k) <==> exists|j: int|
                    0 <= j < entries@.len() && (#[trigger] entries@[j]).0 == k by {
                if exists|j: int| 0 <= j < before.len() && (#[trigger] before[j]).0 == k {
                    let j = choose|j: int| 0 <= j < before.len() && (#[trigger] before[j]).0 == k;
                    assert(entries@[j].0 == k);
                }
                assert(entries@[before.len() as int].0 == key);
                if k != key && exists|j: int|
                    0 <= j < entries@.len() && (#[trigger] entries@[j]).0 == k {
                    let j = choose|j: int|
                        0 <= j < entries@.len() && (#[trigger] entries@[j]).0 == k;
                    assert(before[j].0 == k);
                }
            }
            assert(distinct_members(entries_view(entries@))) by {
                let now = entries_view(entries@);
                assert forall|a: int, b: int| 0 <= a < b < now.len() implies (#[trigger] now[a]).0
                    != (#[trigger] now[b]).0 by {
                    if b < before.len() {
                        assert(entries_view(before)[a].0 != entries_view(before)[b].0);
                    } else {
                        assert(before[a].0 == now[a].0);
                    }
                }
            }
        }
        i = i + 1;
    }
    Some(entries)
}

pub(crate) fn write_server_chat(out: &mut Vec<u8>, p: &ServerChatPacket)
    ensures
        final(out)@ == old(out)@ + put_server_chat(p@),
{
    let ghost before = out@;
    match p {
        ServerChatPacket::ServerInfo { name } => {
            write_u32(out, 0);
            write_text(out, name.as_str());
        },
        ServerChatPacket::SelfMember { member_id } => {
            write_u32(out, 1);
            write_id(out, *member_id);
        },
        ServerChatPacket::Members { member_ids } => {
            write_u32(out, 2);
            write_member_ids(out, member_ids);
        },
        ServerChatPacket::NewMember { member_id } => {
            write_u32(out, 3);
            write_id(out, *member_id);
        },
        ServerChatPacket::RemoveMember { member_id } => {
            write_u32(out, 4);
            write_id(out, *member_id);
        },
        ServerChatPacket::MemberInfo { members } => {
            write_u32(out, 5);
            write_member_table(out, members);
        },
        ServerChatPacket::NewMessage { sender_id, message_id, message } => {
            write_u32(out, 6);
            write_id(out, *sender_id);
            write_id(out, *message_id);
            write_text(out, message.as_str());
        },
        ServerChatPacket::EditMessage { sender_id, message_id, message } => {
            write_u32(out, 7);
            write_id(out, *sender_id);
            write_id(out, *message_id);
            write_text(out, message.as_str());
        },
        ServerChatPacket::RemoveMessage { sender_id, message_id } => {
            write_u32(out, 8);
            write_id(out, *sender_id);
            write_id(out, *message_id);
        },
        ServerChatPacket::KeepAlive => {
            write_u32(out, 9);
        },
        ServerChatPacket::InvalidState => {
            write_u32(out, 10);
        },
    }
    assert(out@ =~= before + put_server_chat(p@));
}

pub(crate) fn read_server_chat(r: &mut Reader) -> (out: Option<ServerChatPacket>)
    requires
        old(r).wf(),
    ensures
        final(r).wf(),
        match out {
            Some(p) => take_server_chat(old(r).rest()) == Some((p@, final(r).rest())),
            None => take_server_chat(old(r).rest()) is None,
        },
{
    let tag = match r.read_u32() {
        Some(v) => v,
        None => { return None; },
    };
    if tag == 0 {
        match r.read_text() {
            Some(name) => Some(ServerChatPacket::ServerInfo { name }),
            None => None,
        }
    } else if tag == 1 || tag == 3 || tag == 4 {
        let member_id = match r.read_id() {
            Some(v) => v,
            None => { return None; },
        };
        if tag == 1 {
            Some(ServerChatPacket::SelfMember { member_id })
        } else if tag == 3 {
            Some(ServerChatPacket::NewMember { member_id })
        } else {
            Some(ServerChatPacket::RemoveMember { member_id })
        }
    } else if tag == 2 {
        match read_member_ids(r) {
            Some(member_ids) => Some(ServerChatPacket::Members { member_ids }),
            None => None,
        }
    } else if tag == 5 {
        match read_member_table(r) {
            Some(members) => Some(ServerChatPacket::MemberInfo { members }),
            None => None,
        }
    } else if tag == 6 || tag == 7 {
        let sender_id = match r.read_id() {
            Some(v) => v,
            None => { return None; },
        };
        let message_id = match r.read_id() {
            Some(v) => v,
            None => { return None; },
        };
        let message = match r.read_text() {
            Some(v) => v,
            None => { return None; },
        };
        if tag == 6 {
            Some(ServerChatPacket::NewMessage { sender_id, message_id, message })
        } else {
            Some(ServerChatPacket::EditMessage { sender_id, message_id, message })
        }
    } else if tag == 8 {
        let sender_id = match r.read_id() {
            Some(v) => v,
            None => { return None; },
        };
        let message_id = match r.read_id() {
            Some(v) => v,
            None => { return None; },
        };
        Some(ServerChatPacket::RemoveMessage { sender_id, message_id })
    } else if tag == 9 {
        Some(ServerChatPacket::KeepAlive)
    } else if tag == 10 {
        Some(ServerChatPacket::InvalidState)
    } else {
        None
    }
}

pub(crate) fn write_server_packet(out: &mut Vec<u8>, p: &ServerPacket)
    ensures
        final(out)@ == old(out)@ + put_server_packet(p@),
{
    let ghost before = out@;
    match p {
        ServerPacket::Init(init) => {
            write_u32(out, 0);
            write_server_init(out, init);
        },
        ServerPacket::Chat(chat) => {
            write_u32(out, 1);
            write_server_chat(out, chat);
        },
    }
    assert(out@ =~= before + put_server_packet(p@));
}

pub(crate) fn read_server_packet(r: &mut Reader) -> (out: Option<ServerPacket>)
    requires
        old(r).wf(),
    ensures
        final(r).wf(),
        match out {
            Some(p) => take_server_packet(old(r).rest()) == Some((p@, final(r).rest())),
            None => take_server_packet(old(r).rest()) is None,
        },
{
    let tag = match r.read_u32() {
        Some(v) => v,
        None => { return None; },
    };
    if tag == 0 {
        match read_server_init(r) {
            Some(init) => Some(ServerPacket::Init(init)),
            None => None,
        }
    } else if tag == 1 {
        match read_server_chat(r) {
            Some(chat) => Some(ServerPacket::Chat(chat)),
            None => None,
        }
    } else {
        None
    }
}

impl ServerPacket {
    /// The bytes to send for this packet, which stays with the caller.
    pub fn to_bytes(&self) -> (b: Bytes)
        ensures
            bytes_contents(b) == framed(self.wire()),
    {
        let mut out: Vec<u8> = Vec::new();
        write_server_packet(&mut out, self);
        assert(out@ =~= self.wire());
        seal(out)
    }
}

impl IntoPacketBytes for ServerPacket {
    open spec fn wire(&self) -> Seq<u8> {
        put_server_packet(self@)
    }

    fn into_bytes(self) -> (b: Bytes) {
        self.to_bytes()
    }
}

impl IntoPacketBytes for ServerInitPacket {
    open spec fn wire(&self) -> Seq<u8> {
        put_server_packet(ServerPacketView::Init(self@))
    }

    /// An init packet goes out inside its envelope.
    fn into_bytes(self) -> (b: Bytes) {
        ServerPacket::Init(self).into_bytes()
    }
}

impl IntoPacketBytes for ServerChatPacket {
    open spec fn wire(&self) -> Seq<u8> {
        put_server_packet(ServerPacketView::Chat(self@))
    }

    /// A chat packet goes out inside its envelope.
    fn into_bytes(self) -> (b: Bytes) {
        ServerPacket::Chat(self).into_bytes()
    }
}

impl FromPacketBytes for ServerPacket {
    open spec fn decoded(buffer: Seq<u8>) -> Option<ServerPacketView> {
        server_packet_in(buffer)
    }

    fn from_bytes(bytes: Bytes) -> (r: Option<ServerPacket>) {
        let all = bytes_as_slice(&bytes);
        let seen = window_of(all);
        let mut reader = Reader::new(seen);
        read_server_packet(&mut reader)
    }
}

/// Whether a list names no member twice.
pub fn all_distinct(ids: &Vec<u128>) -> (b: bool)
    ensures
        b == ids@.no_duplicates(),
{
    let mut seen: HashSet<u128> = HashSet::new();
    let mut i: usize = 0;
    while i < ids.len()
        invariant
            i <= ids@.len(),
            ids@.take(i as int).no_duplicates(),
            forall|k: u128| seen@.contains(k) <==> ids@.take(i as int).contains(k),
        decreases ids@.len() - i,
    {
        let ghost before = ids@.take(i as int);
        let ghost now = ids@.take(i + 1);
        let id = ids[i];
        assert(now =~= before.push(id));
        let fresh = seen.insert(id);
        if !fresh {
            proof {
                let j = choose|j: int| 0 <= j < before.len() && before[j] == id;
                assert(ids@[j] == ids@[i as int]);
            }
            return false;
        }
        proof {
            assert forall|k: u128| seen@.contains(k) <==> now.contains(k) by {
                if before.contains(k) {
                    let j = choose|j: int| 0 <= j < before.len() && before[j] == k;
                    assert(now[j] == k);
                }
                assert(now[i as int] == id);
                if now.contains(k) && k != id {
                    let j = choose|j: int| 0 <= j < now.len() && now[j] == k;
                    assert(before[j] == k);
                }
            }
            assert forall|a: int, b: int| 0 <= a < now.len() && 0 <= b < now.len() && a != b
                implies now[a] != now[b] by {
                if a < before.len() {
                    assert(before.contains(now[a]));
                }
                if b < before.len() {
                    assert(before.contains(now[b]));
                }
            }
        }
        i = i + 1;
    }
    assert(ids@.take(ids@.len() as int) =~= ids@);
    true
}

/// Whether a table has no two entries for one member.
pub fn distinct_entries(entries: &Vec<(u128, MemberInfo)>) -> (b: bool)
    ensures
        b == distinct_members(entries_view(entries@)),
{
    let mut ids: Vec<u128> = Vec::new();
    let mut i: usize = 0;
    while i < entries.len()
        invariant
            i <= entries@.len(),
            ids@.len() == i,
            forall|j: int| 0 <= j < i ==> ids@[j] == (#[trigger] entries@[j]).0,
        decreases entries@.len() - i,
    {
        ids.push(entries[i].0);
        i = i + 1;
    }
    let b = all_distinct(&ids);
    proof {
        let shown = entries_view(entries@);
        if b {
            assert forall|x: int, y: int| 0 <= x < y < shown.len() implies (#[trigger] shown[x]).0
                != (#[trigger] shown[y]).0 by {
                assert(ids@[x] != ids@[y]);
                assert(entries@[x].0 == ids@[x]);
                assert(entries@[y].0 == ids@[y]);
            }
        } else {
            let (x, y) = choose|x: int, y: int|
                0 <= x < ids@.len() && 0 <= y < ids@.len() && x != y && ids@[x] == ids@[y];
            assert(entries@[x].0 == ids@[x]);
            assert(entries@[y].0 == ids@[y]);
            if x < y {
                assert(shown[x].0 == shown[y].0);
            } else {
                assert(shown[y].0 == shown[x].0);
            }
        }
    }
    b
}

impl ServerChatPacket {
    /// Whether the packet is valid: whether its member list, if it has
    /// one, names each member once.
    pub fn is_valid(&self) -> (b: bool)
        ensures
            b == valid_server_chat(self@),
    {
        match self {
            ServerChatPacket::Members { member_ids } => all_distinct(member_ids),
            ServerChatPacket::MemberInfo { members } => distinct_entries(members),
            _ => true,
        }
    }
}

impl ServerPacket {
    /// Whether the packet is valid.
    pub fn is_valid(&self) -> (b: bool)
        ensures
            b == valid_server_packet(self@),
    {
        match self {
            ServerPacket::Init(_) => true,
            ServerPacket::Chat(chat) => chat.is_valid(),
        }
    }
}

/// What is sent for a valid packet decodes to that packet, as long as the
/// packet's encoding fits under the ceiling.
pub proof fn sent_server_packet_is_received(p: ServerPacket)
    requires
        valid_server_packet(p@),
        p.wire().len() <= MAX_PACKET_BYTES,
    ensures
        ServerPacket::decoded(framed(p.wire())) == Some(p@),
{
    server_packet_round_trip(p@, Seq::empty());
    assert(p.wire() + Seq::<u8>::empty() =~= p.wire());
}

} // verus!
