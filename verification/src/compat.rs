//! Protocol fingerprints and the rule that decides whether two peers may talk.

use crate::wire::{
    lemma_u16_exact, lemma_u16_round_trip, lemma_u32_exact, lemma_u32_round_trip, lemma_u64_exact,
    lemma_u64_round_trip, put_u16, put_u32, put_u64, take_u16, take_u32, take_u64, write_u16,
    write_u32, write_u64, Reader,
};
use crate::text::{decimal, push_char, push_decimal, push_text};
use vstd::prelude::*;
use vstd::string::StringExecFns;

verus! {

/// Token that tells this protocol apart from anything else on the wire.
#[derive(Debug, Clone, Copy, PartialEq, Eq, Structural)]
pub struct MagicBytes(pub u64);

/// Protocol version as major, minor, patch.
#[derive(Debug, Clone, Copy, PartialEq, Eq)]
pub struct Version(pub [u16; 3]);

/// What a peer presents during the handshake.
#[derive(Debug, Clone, Copy, PartialEq, Eq)]
pub struct CompatibilityInfo {
    pub magic_bytes: MagicBytes,
    pub version: Version,
}

/// Why two fingerprints do not go together.
#[derive(Debug, Clone, Copy, PartialEq, Eq)]
#[non_exhaustive]
pub enum CompatibilityError {
    /// The magic tokens differ: the peer speaks another protocol.
    InvalidClient,
    /// The major versions differ.
    VersionMismatch { server: Version, client: Version },
}

/// The magic token of this protocol.
pub const PROTOCOL_MAGIC: u64 = 0x3064396a3df83f1d;

/// The fingerprint that this build presents and expects: the protocol's magic
/// token and version 0.1.0.
pub open spec fn local_info() -> CompatibilityInfo {
    CompatibilityInfo { magic_bytes: MagicBytes(PROTOCOL_MAGIC), version: Version([0u16, 1u16, 0u16]) }
}

/// The fingerprint that this build presents and expects.
#[verifier::when_used_as_spec(local_info)]
pub fn compat_info() -> (r: CompatibilityInfo)
    ensures
        r == local_info(),
{
    CompatibilityInfo { magic_bytes: MagicBytes(PROTOCOL_MAGIC), version: Version([0u16, 1u16, 0u16]) }
}

impl Version {
    pub open spec fn major(self) -> u16 {
        self.0[0]
    }

    /// The version as text: its three numbers with dots between them.
    pub open spec fn text(self) -> Seq<char> {
        decimal(self.0[0] as nat) + seq!['.'] + decimal(self.0[1] as nat) + seq!['.'] + decimal(
            self.0[2] as nat,
        )
    }

    /// Appends the version as text.
    pub(crate) fn push_onto(&self, out: &mut String)
        ensures
            final(out)@ == old(out)@ + self.text(),
    {
        let ghost before = out@;
        push_decimal(out, self.0[0] as u64);
        push_char(out, '.');
        push_decimal(out, self.0[1] as u64);
        push_char(out, '.');
        push_decimal(out, self.0[2] as u64);
        assert(out@ =~= before + self.text());
    }

    /// The version as text, such as `0.1.0`.
    pub fn to_text(&self) -> (text: String)
        ensures
            text@ == self.text(),
    {
        let mut text = String::new();
        self.push_onto(&mut text);
        assert(text@ =~= self.text());
        text
    }
}

impl CompatibilityError {
    /// What the error says to a person.
    pub open spec fn message(self) -> Seq<char> {
        match self {
            CompatibilityError::InvalidClient => "Client is invalid (Invalid magic bytes)"@,
            CompatibilityError::VersionMismatch { server, client } => {
                "The client is incompatible (server:"@ + server.text() + " and client:"@
                    + client.text() + ")"@
            },
        }
    }

    /// What the error says to a person.
    pub fn to_text(&self) -> (text: String)
        ensures
            text@ == self.message(),
    {
        match self {
            CompatibilityError::InvalidClient => String::from_str(
                "Client is invalid (Invalid magic bytes)",
            ),
            CompatibilityError::VersionMismatch { server, client } => {
                let mut text = String::from_str("The client is incompatible (server:");
                server.push_onto(&mut text);
                push_text(&mut text, " and client:");
                client.push_onto(&mut text);
                push_text(&mut text, ")");
                assert(text@ =~= self.message());
                text
            },
        }
    }
}

impl CompatibilityInfo {
    /// Two fingerprints go together when the magic tokens are equal and the
    /// major versions are equal; minor and patch play no part.
    pub open spec fn compatible_with(self, other: CompatibilityInfo) -> bool {
        self.magic_bytes.0 == other.magic_bytes.0 && self.version.major() == other.version.major()
    }

    /// What the test of `self`, the server's fingerprint, against `other`,
    /// the client's, comes to: differing magic tokens make the client
    /// invalid, differing major versions a mismatch that names both
    /// versions, and everything else is fine.
    pub open spec fn verdict(self, other: CompatibilityInfo) -> Result<(), CompatibilityError> {
        if self.magic_bytes.0 != other.magic_bytes.0 {
            Err(CompatibilityError::InvalidClient)
        } else if self.version.major() != other.version.major() {
            Err(CompatibilityError::VersionMismatch { server: self.version, client: other.version })
        } else {
            Ok(())
        }
    }

    /// Tests `self`, the server's fingerprint, against `other`, the client's.
    pub fn compatible(self, other: CompatibilityInfo) -> (r: Result<(), CompatibilityError>)
        ensures
            r == self.verdict(other),
            r is Ok <==> self.compatible_with(other),
    {
        if self.magic_bytes.0 != other.magic_bytes.0 {
            return Err(CompatibilityError::InvalidClient);
        }
        if self.version.0[0] != other.version.0[0] {
            return Err(
                CompatibilityError::VersionMismatch { server: self.version, client: other.version },
            );
        }
        Ok(())
    }
}

// ---------------------------------------------------------------------------
// Wire format
// ---------------------------------------------------------------------------

/// A fingerprint travels as its magic token and its three version numbers.
pub open spec fn put_info(i: CompatibilityInfo) -> Seq<u8> {
    put_u64(i.magic_bytes.0) + put_version(i.version)
}

pub open spec fn take_info(s: Seq<u8>) -> Option<(CompatibilityInfo, Seq<u8>)> {
    match take_u64(s) {
        Some((magic, s1)) => match take_version(s1) {
            Some((version, s2)) => Some(
                (CompatibilityInfo { magic_bytes: MagicBytes(magic), version }, s2),
            ),
            None => None,
        },
        None => None,
    }
}

pub open spec fn put_version(v: Version) -> Seq<u8> {
    put_u16(v.0[0]) + put_u16(v.0[1]) + put_u16(v.0[2])
}

pub open spec fn take_version(s: Seq<u8>) -> Option<(Version, Seq<u8>)> {
    match take_u16(s) {
        Some((major, s1)) => match take_u16(s1) {
            Some((minor, s2)) => match take_u16(s2) {
                Some((patch, s3)) => Some((Version([major, minor, patch]), s3)),
                None => None,
            },
            None => None,
        },
        None => None,
    }
}

/// An error travels as its number and, for a version mismatch, the two
/// versions.
pub open spec fn put_compat_error(e: CompatibilityError) -> Seq<u8> {
    match e {
        CompatibilityError::InvalidClient => put_u32(0),
        CompatibilityError::VersionMismatch { server, client } => put_u32(1) + put_version(server)
            + put_version(client),
    }
}

pub open spec fn take_compat_error(s: Seq<u8>) -> Option<(CompatibilityError, Seq<u8>)> {
    match take_u32(s) {
        Some((tag, s1)) => if tag == 0 {
            Some((CompatibilityError::InvalidClient, s1))
        } else if tag == 1 {
            match take_version(s1) {
                Some((server, s2)) => match take_version(s2) {
                    Some((client, s3)) => Some(
                        (CompatibilityError::VersionMismatch { server, client }, s3),
                    ),
                    None => None,
                },
                None => None,
            }
        } else {
            None
        },
        None => None,
    }
}

pub proof fn lemma_version_round_trip(v: Version, rest: Seq<u8>)
    ensures
        put_version(v).len() == 6,
        take_version(put_version(v) + rest) == Some((v, rest)),
{
    let t2 = put_u16(v.0[2]) + rest;
    let t1 = put_u16(v.0[1]) + t2;
    lemma_u16_round_trip(v.0[0], t1);
    lemma_u16_round_trip(v.0[1], t2);
    lemma_u16_round_trip(v.0[2], rest);
    assert(put_version(v) + rest =~= put_u16(v.0[0]) + t1);
    assert(Version([v.0[0], v.0[1], v.0[2]]).0 =~= v.0);
}

pub proof fn lemma_info_round_trip(i: CompatibilityInfo, rest: Seq<u8>)
    ensures
        put_info(i).len() == 14,
        take_info(put_info(i) + rest) == Some((i, rest)),
{
    let t1 = put_version(i.version) + rest;
    lemma_u64_round_trip(i.magic_bytes.0, t1);
    lemma_version_round_trip(i.version, rest);
    assert(put_info(i) + rest =~= put_u64(i.magic_bytes.0) + t1);
}

pub proof fn lemma_compat_error_round_trip(e: CompatibilityError, rest: Seq<u8>)
    ensures
        put_compat_error(e).len() <= 16,
        take_compat_error(put_compat_error(e) + rest) == Some((e, rest)),
{
    match e {
        CompatibilityError::InvalidClient => {
            lemma_u32_round_trip(0, rest);
        },
        CompatibilityError::VersionMismatch { server, client } => {
            let t2 = put_version(client) + rest;
            let t1 = put_version(server) + t2;
            lemma_u32_round_trip(1, t1);
            lemma_version_round_trip(server, t2);
            lemma_version_round_trip(client, rest);
            assert(put_compat_error(e) + rest =~= put_u32(1) + t1);
        },
    }
}

pub proof fn lemma_version_exact(s: Seq<u8>)
    requires
        take_version(s) is Some,
    ensures
        s == put_version(take_version(s).unwrap().0) + take_version(s).unwrap().1,
{
    lemma_u16_exact(s);
    let s1 = take_u16(s).unwrap().1;
    lemma_u16_exact(s1);
    let s2 = take_u16(s1).unwrap().1;
    lemma_u16_exact(s2);
    let v = take_version(s).unwrap().0;
    assert(s =~= put_version(v) + take_version(s).unwrap().1);
}

pub proof fn lemma_info_exact(s: Seq<u8>)
    requires
        take_info(s) is Some,
    ensures
        s == put_info(take_info(s).unwrap().0) + take_info(s).unwrap().1,
{
    lemma_u64_exact(s);
    let s1 = take_u64(s).unwrap().1;
    lemma_version_exact(s1);
    let i = take_info(s).unwrap().0;
    assert(s =~= put_info(i) + take_info(s).unwrap().1);
}

pub proof fn lemma_compat_error_exact(s: Seq<u8>)
    requires
        take_compat_error(s) is Some,
    ensures
        s == put_compat_error(take_compat_error(s).unwrap().0) + take_compat_error(s).unwrap().1,
{
    lemma_u32_exact(s);
    let tag = take_u32(s).unwrap().0;
    let s1 = take_u32(s).unwrap().1;
    if tag == 1 {
        lemma_version_exact(s1);
        let s2 = take_version(s1).unwrap().1;
        lemma_version_exact(s2);
        let e = take_compat_error(s).unwrap().0;
        assert(s =~= put_compat_error(e) + take_compat_error(s).unwrap().1);
    }
}

pub(crate) fn write_version(out: &mut Vec<u8>, v: &Version)
    ensures
        final(out)@ == old(out)@ + put_version(*v),
{
    let ghost before = out@;
    write_u16(out, v.0[0]);
    write_u16(out, v.0[1]);
    write_u16(out, v.0[2]);
    assert(out@ =~= before + put_version(*v));
}

pub(crate) fn read_version(r: &mut Reader) -> (out: Option<Version>)
    requires
        old(r).wf(),
    ensures
        final(r).wf(),
        match out {
            Some(v) => take_version(old(r).rest()) == Some((v, final(r).rest())),
            None => take_version(old(r).rest()) is None,
        },
{
    let major = match r.read_u16() {
        Some(v) => v,
        None => { return None; },
    };
    let minor = match r.read_u16() {
        Some(v) => v,
        None => { return None; },
    };
    let patch = match r.read_u16() {
        Some(v) => v,
        None => { return None; },
    };
    Some(Version([major, minor, patch]))
}

pub(crate) fn write_info(out: &mut Vec<u8>, i: &CompatibilityInfo)
    ensures
        final(out)@ == old(out)@ + put_info(*i),
{
    let ghost before = out@;
    write_u64(out, i.magic_bytes.0);
    write_version(out, &i.version);
    assert(out@ =~= before + put_info(*i));
}

pub(crate) fn read_info(r: &mut Reader) -> (out: Option<CompatibilityInfo>)
    requires
        old(r).wf(),
    ensures
        final(r).wf(),
        match out {
            Some(v) => take_info(old(r).rest()) == Some((v, final(r).rest())),
            None => take_info(old(r).rest()) is None,
        },
{
    let magic = match r.read_u64() {
        Some(v) => v,
        None => { return None; },
    };
    let version = match read_version(r) {
        Some(v) => v,
        None => { return None; },
    };
    Some(CompatibilityInfo { magic_bytes: MagicBytes(magic), version })
}

pub(crate) fn write_compat_error(out: &mut Vec<u8>, e: &CompatibilityError)
    ensures
        final(out)@ == old(out)@ + put_compat_error(*e),
{
    let ghost before = out@;
    match e {
        CompatibilityError::InvalidClient => {
            write_u32(out, 0);
        },
        CompatibilityError::VersionMismatch { server, client } => {
            write_u32(out, 1);
            write_version(out, server);
            write_version(out, client);
            assert(out@ =~= before + put_compat_error(*e));
        },
    }
}

pub(crate) fn read_compat_error(r: &mut Reader) -> (out: Option<CompatibilityError>)
    requires
        old(r).wf(),
    ensures
        final(r).wf(),
        match out {
            Some(v) => take_compat_error(old(r).rest()) == Some((v, final(r).rest())),
            None => take_compat_error(old(r).rest()) is None,
        },
{
    let tag = match r.read_u32() {
        Some(v) => v,
        None => { return None; },
    };
    if tag == 0 {
        Some(CompatibilityError::InvalidClient)
    } else if tag == 1 {
        let server = match read_version(r) {
            Some(v) => v,
            None => { return None; },
        };
        let client = match read_version(r) {
            Some(v) => v,
            None => { return None; },
        };
        Some(CompatibilityError::VersionMismatch { server, client })
    } else {
        None
    }
}

/// Compatibility does not depend on which side asks, and holds exactly of
/// fingerprints with equal magic tokens and equal major versions.
pub proof fn compatible_is_symmetric(a: CompatibilityInfo, b: CompatibilityInfo)
    ensures
        a.verdict(b) is Ok <==> b.verdict(a) is Ok,
        a.verdict(b) is Ok <==> (a.magic_bytes.0 == b.magic_bytes.0 && a.version.0[0]
            == b.version.0[0]),
        a.verdict(b) is Ok <==> a.compatible_with(b),
{
}

} // verus!
