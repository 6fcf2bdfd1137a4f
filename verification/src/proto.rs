//! The messages carried in a decrypted payload: the outer header, the archive
//! header, and the body that the header's command announces.

use crate::ecb::{ecb_plaintext, open_payload, opened_payload, CipherError};
use crate::recruit::{Recruit, RecruitView};
use crate::text::{decimal, decimal_padded, push_decimal, push_decimal_padded};
use crate::wire::{
    le_bytes_u16, le_bytes_u32, le_u16_at, le_u32_at, lemma_le_u16_round_trip,
    lemma_le_u32_round_trip, lemma_text_round_trip, text_bytes, text_field, Decoded, ParseError,
    Reader,
};
use vstd::prelude::*;
use vstd::std_specs::convert::FromSpecImpl;
use vstd::string::StringExecFns;
use vstd::utf8::encode_utf8;

verus! {

/// The key that the cabinets encrypt their datagrams with.
pub const KEY: [u8; 16] = [
    0x43, 0x48, 0x55, 0x4e, 0x49, 0x43, 0x48, 0x55, 0x4e, 0x49, 0x43, 0x48, 0x55, 0x4e, 0x49, 0x43,
];

/// A three-part version number, packed on the wire into one 32-bit integer.
#[derive(Clone, Copy, Debug, PartialEq, Eq, Structural)]
pub struct Version {
    pub major: u16,
    pub minor: u16,
    pub patch: u16,
}

impl Version {
    /// The version that the packed integer `v` stands for. Every integer
    /// stands for one; nothing is rejected.
    pub open spec fn unpack(v: u32) -> Version {
        Version {
            major: (v / 1_000_000) as u16,
            minor: ((v / 1000) % 1000) as u16,
            patch: (v % 1000) as u16,
        }
    }

    /// The integer that packs `self`, where one exists.
    pub open spec fn pack(self) -> int {
        self.major * 1_000_000 + self.minor * 1000 + self.patch
    }

    /// `self` is what unpacking some integer gives: its minor and patch parts
    /// have at most three digits and the packed integer fits in 32 bits.
    pub open spec fn packable(self) -> bool {
        self.minor < 1000 && self.patch < 1000 && self.pack() <= u32::MAX
    }

    /// A packed version at the front of `s`.
    pub open spec fn decode(s: Seq<u8>) -> Decoded<Version> {
        if s.len() < 4 {
            Err(ParseError::UnexpectedEof)
        } else {
            Ok((Version::unpack(le_u32_at(s, 0)), 4))
        }
    }

    /// Unpacks a version from its wire integer.
    pub fn from_packed(v: u32) -> (r: Version)
        ensures
            r == Version::unpack(v),
    {
        Version {
            major: (v / 1_000_000) as u16,
            minor: ((v / 1000) % 1000) as u16,
            patch: (v % 1000) as u16,
        }
    }

    /// How a version is written: the major part as it is, then the minor and
    /// the patch part with at least two digits each, with dots between them.
    pub open spec fn text(self) -> Seq<char> {
        decimal(self.major as nat) + seq!['.'] + decimal_padded(self.minor as nat) + seq!['.']
            + decimal_padded(self.patch as nat)
    }

    /// Writes the version out, as in `1.02.03`.
    pub fn to_text(&self) -> (r: String)
        ensures
            r@ == self.text(),
    {
        let mut out = String::new();
        push_decimal(&mut out, self.major);
        proof {
            reveal_strlit(".");
        }
        assert("."@ == seq!['.']);
        out.append(".");
        push_decimal_padded(&mut out, self.minor);
        out.append(".");
        push_decimal_padded(&mut out, self.patch);
        out
    }

    /// Reads a packed version.
    pub fn parse(reader: &mut Reader) -> (r: Result<Version, ParseError>)
        ensures
            final(reader).input() == old(reader).input(),
            match Version::decode(old(reader).remaining()) {
                Ok((v, n)) => r == Ok::<Version, ParseError>(v) && final(reader).follows(
                    *old(reader),
                    n,
                ),
                Err(e) => r == Err::<Version, ParseError>(e),
            },
    {
        let v = reader.read_u32_le()?;
        Ok(Version::from_packed(v))
    }
}

/// What a message asks for. Identifiers that are not known are kept as they
/// came.
#[derive(Clone, Copy, Debug, PartialEq, Eq, Structural)]
pub enum Command {
    Recruit,
    RecruitEnd,
    Unknown(u32),
}

impl Command {
    /// The command that the wire identifier `v` names.
    pub open spec fn of(v: u32) -> Command {
        if v == 11 {
            Command::Recruit
        } else if v == 12 {
            Command::RecruitEnd
        } else {
            Command::Unknown(v)
        }
    }

    /// The wire identifier of `self`.
    pub open spec fn wire_code(self) -> u32 {
        match self {
            Command::Recruit => 11,
            Command::RecruitEnd => 12,
            Command::Unknown(v) => v,
        }
    }

    /// The wire identifier of `self`.
    #[verifier::when_used_as_spec(wire_code)]
    pub fn code(self) -> (r: u32)
        ensures
            r == self.wire_code(),
    {
        match self {
            Command::Recruit => 11,
            Command::RecruitEnd => 12,
            Command::Unknown(v) => v,
        }
    }
}

impl From<u32> for Command {
    fn from(v: u32) -> (r: Command) {
        if v == 11 {
            Command::Recruit
        } else if v == 12 {
            Command::RecruitEnd
        } else {
            Command::Unknown(v)
        }
    }
}

impl FromSpecImpl<u32> for Command {
    open spec fn obeys_from_spec() -> bool {
        true
    }

    open spec fn from_spec(v: u32) -> Command {
        Command::of(v)
    }
}

/// The outer header: twelve bytes in front of every message.
#[derive(Clone, Copy, Debug, PartialEq, Eq, Structural)]
pub struct Header {
    pub rom_version: Version,
    pub data_version: Version,
    pub command: Command,
}

impl Header {
    /// A header at the front of `s`: two packed versions and a command
    /// identifier, each a little-endian 32-bit integer.
    pub open spec fn decode(s: Seq<u8>) -> Decoded<Header> {
        if s.len() < 12 {
            Err(ParseError::UnexpectedEof)
        } else {
            Ok(
                (
                    Header {
                        rom_version: Version::unpack(le_u32_at(s, 0)),
                        data_version: Version::unpack(le_u32_at(s, 4)),
                        command: Command::of(le_u32_at(s, 8)),
                    },
                    12,
                ),
            )
        }
    }

    /// Reads a header.
    pub fn parse(reader: &mut Reader) -> (r: Result<Header, ParseError>)
        ensures
            final(reader).input() == old(reader).input(),
            match Header::decode(old(reader).remaining()) {
                Ok((h, n)) => r == Ok::<Header, ParseError>(h) && final(reader).follows(
                    *old(reader),
                    n,
                ),
                Err(e) => r == Err::<Header, ParseError>(e),
            },
    {
        let rom_version = Version::parse(reader)?;
        let data_version = Version::parse(reader)?;
        let command = Command::from(reader.read_u32_le()?);
        Ok(Header { rom_version, data_version, command })
    }
}

/// The archive header: the serialization profile of what follows it. Its
/// size and byte-order fields are read and reported, never acted on.
#[derive(Clone, Debug, PartialEq, Eq)]
pub struct ArchiveHeader {
    pub magic: String,
    pub version: u16,
    pub size_int: u8,
    pub size_long: u8,
    pub size_float: u8,
    pub size_double: u8,
    pub endian: u32,
}

/// The model of an [`ArchiveHeader`].
pub struct ArchiveHeaderView {
    pub magic: Seq<char>,
    pub version: u16,
    pub size_int: u8,
    pub size_long: u8,
    pub size_float: u8,
    pub size_double: u8,
    pub endian: u32,
}

impl View for ArchiveHeader {
    type V = ArchiveHeaderView;

    open spec fn view(&self) -> ArchiveHeaderView {
        ArchiveHeaderView {
            magic: self.magic@,
            version: self.version,
            size_int: self.size_int,
            size_long: self.size_long,
            size_float: self.size_float,
            size_double: self.size_double,
            endian: self.endian,
        }
    }
}

impl ArchiveHeader {
    /// An archive header at the front of `s`: the magic as a text field, a
    /// 16-bit version, four size bytes and a 32-bit byte-order tag, the
    /// integers little-endian.
    pub open spec fn decode(s: Seq<u8>) -> Decoded<ArchiveHeaderView> {
        match text_field(s) {
            Err(e) => Err(e),
            Ok((magic, n)) => {
                let k = n as int;
                if s.len() < k + 10 {
                    Err(ParseError::UnexpectedEof)
                } else {
                    Ok(
                        (
                            ArchiveHeaderView {
                                magic,
                                version: le_u16_at(s, k),
                                size_int: s[k + 2],
                                size_long: s[k + 3],
                                size_float: s[k + 4],
                                size_double: s[k + 5],
                                endian: le_u32_at(s, k + 6),
                            },
                            (k + 10) as nat,
                        ),
                    )
                }
            },
        }
    }

    /// Reads an archive header.
    pub fn parse(reader: &mut Reader) -> (r: Result<ArchiveHeader, ParseError>)
        ensures
            final(reader).input() == old(reader).input(),
            match ArchiveHeader::decode(old(reader).remaining()) {
                Ok((a, n)) => r matches Ok(x) && x@ == a && final(reader).follows(*old(reader), n),
                Err(e) => r matches Err(x) && x == e,
            },
    {
        let magic = reader.read_string()?;
        let version = reader.read_u16_le()?;
        let size_int = reader.read_u8()?;
        let size_long = reader.read_u8()?;
        let size_float = reader.read_u8()?;
        let size_double = reader.read_u8()?;
        let endian = reader.read_u32_le()?;
        Ok(ArchiveHeader { magic, version, size_int, size_long, size_float, size_double, endian })
    }
}

/// What follows the two headers of a message.
#[derive(Clone, Debug, PartialEq, Eq)]
pub enum Body {
    /// A recruit record, for the commands that carry one.
    Recruit(Recruit),
    /// Nothing that is understood: the identifier of the unknown command.
    Unknown(u32),
}

/// The model of a [`Body`].
pub enum BodyView {
    Recruit(RecruitView),
    Unknown(u32),
}

impl View for Body {
    type V = BodyView;

    open spec fn view(&self) -> BodyView {
        match self {
            Body::Recruit(r) => BodyView::Recruit(r@),
            Body::Unknown(v) => BodyView::Unknown(*v),
        }
    }
}

impl Body {
    /// The body that `command` announces, at the front of `s`. Both recruit
    /// commands carry a recruit record; for any other command no byte is
    /// looked at, and the identifier is handed on.
    pub open spec fn decode(command: Command, s: Seq<u8>) -> Decoded<BodyView> {
        match command {
            Command::Unknown(v) => Ok((BodyView::Unknown(v), 0)),
            _ => match Recruit::decode(s) {
                Ok((r, n)) => Ok((BodyView::Recruit(r), n)),
                Err(e) => Err(e),
            },
        }
    }

    /// Reads the body that `command` announces.
    pub fn parse(command: Command, reader: &mut Reader) -> (r: Result<Body, ParseError>)
        ensures
            final(reader).input() == old(reader).input(),
            match Body::decode(command, old(reader).remaining()) {
                Ok((v, n)) => r matches Ok(x) && x@ == v && final(reader).follows(*old(reader), n),
                Err(e) => r matches Err(x) && x == e,
            },
    {
        match command {
            Command::Recruit | Command::RecruitEnd => {
                let recruit = Recruit::parse(reader)?;
                Ok(Body::Recruit(recruit))
            },
            Command::Unknown(v) => {
                proof {
                    use_type_invariant(&*reader);
                }
                Ok(Body::Unknown(v))
            },
        }
    }
}

/// A decoded message.
#[derive(Clone, Debug, PartialEq, Eq)]
pub struct Message {
    pub header: Header,
    pub archive: ArchiveHeader,
    pub body: Body,
}

/// The model of a [`Message`].
pub struct MessageView {
    pub header: Header,
    pub archive: ArchiveHeaderView,
    pub body: BodyView,
}

impl View for Message {
    type V = MessageView;

    open spec fn view(&self) -> MessageView {
        MessageView { header: self.header, archive: self.archive@, body: self.body@ }
    }
}

/// A message that could not be decoded to its end: why, and the headers that
/// had been read when the decoding stopped.
#[derive(Clone, Debug, PartialEq, Eq)]
pub struct Failure {
    pub error: ParseError,
    pub header: Option<Header>,
    pub archive: Option<ArchiveHeader>,
}

/// The model of a [`Failure`].
pub struct FailureView {
    pub error: ParseError,
    pub header: Option<Header>,
    pub archive: Option<ArchiveHeaderView>,
}

impl View for Failure {
    type V = FailureView;

    open spec fn view(&self) -> FailureView {
        FailureView {
            error: self.error,
            header: self.header,
            archive: match self.archive {
                Some(a) => Some(a@),
                None => None,
            },
        }
    }
}

/// The envelope at the front of `s`: the header, the archive header behind
/// it, and the number of bytes the two occupy.
pub open spec fn envelope(s: Seq<u8>) -> Result<(Header, ArchiveHeaderView, nat), FailureView> {
    match Header::decode(s) {
        Err(e) => Err(FailureView { error: e, header: None, archive: None }),
        Ok((header, n)) => match ArchiveHeader::decode(s.skip(n as int)) {
            Err(e) => Err(FailureView { error: e, header: Some(header), archive: None }),
            Ok((archive, m)) => Ok((header, archive, n + m)),
        },
    }
}

/// Reads the envelope: the header, then the archive header.
pub fn parse_envelope(reader: &mut Reader) -> (r: Result<(Header, ArchiveHeader), Failure>)
    ensures
        final(reader).input() == old(reader).input(),
        match envelope(old(reader).remaining()) {
            Ok((header, archive, n)) => r matches Ok(x) && x.0 == header && x.1@ == archive
                && final(reader).follows(*old(reader), n),
            Err(f) => r matches Err(x) && x@ == f,
        },
{
    let ghost s = reader.remaining();
    let header = match Header::parse(reader) {
        Ok(h) => h,
        Err(error) => {
            return Err(Failure { error, header: None, archive: None });
        },
    };
    assert(reader.remaining() == s.skip(12));
    match ArchiveHeader::parse(reader) {
        Ok(archive) => Ok((header, archive)),
        Err(error) => Err(Failure { error, header: Some(header), archive: None }),
    }
}

impl Message {
    /// The message that the plaintext `s` holds: the envelope, then the body
    /// that the header's command announces. Bytes behind the body are not
    /// looked at.
    pub open spec fn decode(s: Seq<u8>) -> Result<MessageView, FailureView> {
        match envelope(s) {
            Err(f) => Err(f),
            Ok((header, archive, n)) => match Body::decode(header.command, s.skip(n as int)) {
                Ok((body, _)) => Ok(MessageView { header, archive, body }),
                Err(e) => Err(
                    FailureView { error: e, header: Some(header), archive: Some(archive) },
                ),
            },
        }
    }

    /// Decodes a decrypted payload.
    pub fn parse(plaintext: &[u8]) -> (r: Result<Message, Failure>)
        ensures
            match Message::decode(plaintext@) {
                Ok(m) => r matches Ok(x) && x@ == m,
                Err(f) => r matches Err(x) && x@ == f,
            },
    {
        let mut reader = Reader::new(plaintext);
        assert(reader.remaining() == plaintext@);
        let (header, archive) = parse_envelope(&mut reader)?;
        match Body::parse(header.command, &mut reader) {
            Ok(body) => Ok(Message { header, archive, body }),
            Err(error) => Err(Failure { error, header: Some(header), archive: Some(archive) }),
        }
    }
}

/// What one datagram gave: its tag, the decrypted bytes, and the message in
/// them or the reason none could be decoded.
#[derive(Debug, PartialEq, Eq)]
pub struct Dump {
    /// The clear-text tag in front of the ciphertext. It is reported, never
    /// checked.
    pub magic: Vec<u8>,
    /// The decrypted bytes, whole, whether or not a message was found in them.
    pub plaintext: Vec<u8>,
    /// The message, or how far its decoding went.
    pub message: Result<Message, Failure>,
}

/// The model of a [`Dump`].
pub struct DumpView {
    pub magic: Seq<u8>,
    pub plaintext: Seq<u8>,
    pub message: Result<MessageView, FailureView>,
}

impl View for Dump {
    type V = DumpView;

    open spec fn view(&self) -> DumpView {
        DumpView {
            magic: self.magic@,
            plaintext: self.plaintext@,
            message: match self.message {
                Ok(m) => Ok(m@),
                Err(f) => Err(f@),
            },
        }
    }
}

/// What the datagram `pkt` gives under `key`. A payload that cannot be
/// decrypted gives nothing at all; one that can gives its plaintext even
/// where no message can be decoded from it.
pub open spec fn dumped(key: Seq<u8>, pkt: Seq<u8>) -> Result<DumpView, CipherError> {
    match opened_payload(key, pkt) {
        Err(e) => Err(e),
        Ok((magic, plaintext)) => Ok(
            DumpView { magic, plaintext, message: Message::decode(plaintext) },
        ),
    }
}

/// Decrypts the datagram `pkt` under `key` and decodes the message in it.
pub fn dump(pkt: &[u8], key: &[u8; 16]) -> (r: Result<Dump, CipherError>)
    ensures
        match dumped(key@, pkt@) {
            Ok(d) => r matches Ok(x) && x@ == d,
            Err(e) => r matches Err(x) && x == e,
        },
{
    let o = open_payload(key, pkt)?;
    let message = Message::parse(o.plaintext.as_slice());
    Ok(Dump { magic: o.tag, plaintext: o.plaintext, message })
}

/// Unpacking the integer that packs a version gives the version back.
pub proof fn lemma_version_round_trip(v: Version)
    requires
        v.packable(),
    ensures
        Version::unpack(v.pack() as u32) == v,
{
}

/// Every command identifier is kept: the command it names has that
/// identifier, known or not.
pub proof fn lemma_command_keeps_identifier(v: u32)
    ensures
        Command::of(v).wire_code() == v,
        v != 11 && v != 12 ==> Command::of(v) == Command::Unknown(v),
{
}

impl Header {
    /// `self` is a header that some twelve bytes decode to: its versions can
    /// be packed and its command is the one that its identifier names.
    pub open spec fn canonical(self) -> bool {
        &&& self.rom_version.packable()
        &&& self.data_version.packable()
        &&& Command::of(self.command.wire_code()) == self.command
    }

    /// The twelve bytes that hold `self`.
    pub open spec fn wire(self) -> Seq<u8> {
        le_bytes_u32(self.rom_version.pack() as u32) + le_bytes_u32(
            self.data_version.pack() as u32,
        ) + le_bytes_u32(self.command.wire_code())
    }
}

impl ArchiveHeaderView {
    /// The byte count of the magic fits the 32-bit prefix of its text field.
    pub open spec fn encodable(self) -> bool {
        encode_utf8(self.magic).len() <= u32::MAX
    }

    /// The bytes that hold `self`.
    pub open spec fn wire(self) -> Seq<u8> {
        text_bytes(self.magic) + le_bytes_u16(self.version) + seq![
            self.size_int,
            self.size_long,
            self.size_float,
            self.size_double,
        ] + le_bytes_u32(self.endian)
    }
}

/// Decoding the bytes of a header gives the header back and consumes
/// exactly those bytes, whatever follows them.
pub proof fn lemma_header_round_trip(h: Header, rest: Seq<u8>)
    requires
        h.canonical(),
    ensures
        Header::decode(h.wire() + rest) == Ok::<(Header, nat), ParseError>((h, 12)),
        h.wire().len() == 12,
{
    let rom = h.rom_version.pack() as u32;
    let data = h.data_version.pack() as u32;
    let cmd = h.command.wire_code();
    let s = h.wire() + rest;
    lemma_le_u32_round_trip(rom, le_bytes_u32(data) + le_bytes_u32(cmd) + rest);
    lemma_le_u32_round_trip(data, le_bytes_u32(cmd) + rest);
    lemma_le_u32_round_trip(cmd, rest);
    assert(s == le_bytes_u32(rom) + (le_bytes_u32(data) + le_bytes_u32(cmd) + rest));
    assert(s.skip(4) == le_bytes_u32(data) + (le_bytes_u32(cmd) + rest));
    assert(s.skip(8) == le_bytes_u32(cmd) + rest);
    assert(le_u32_at(s, 4) == le_u32_at(s.skip(4), 0));
    assert(le_u32_at(s, 8) == le_u32_at(s.skip(8), 0));
    lemma_version_round_trip(h.rom_version);
    lemma_version_round_trip(h.data_version);
}

/// Decoding the bytes of an archive header gives the archive header back and
/// consumes exactly those bytes, whatever follows them.
pub proof fn lemma_archive_round_trip(a: ArchiveHeaderView, rest: Seq<u8>)
    requires
        a.encodable(),
    ensures
        ArchiveHeader::decode(a.wire() + rest) == Ok::<(ArchiveHeaderView, nat), ParseError>(
            (a, a.wire().len()),
        ),
{
    let s = a.wire() + rest;
    let text = text_bytes(a.magic);
    let k = text.len() as int;
    let sizes = seq![a.size_int, a.size_long, a.size_float, a.size_double];
    let after_text = le_bytes_u16(a.version) + sizes + le_bytes_u32(a.endian) + rest;
    lemma_text_round_trip(a.magic, after_text);
    assert(s == text + after_text);
    lemma_le_u16_round_trip(a.version, sizes + le_bytes_u32(a.endian) + rest);
    assert(s.skip(k) == le_bytes_u16(a.version) + (sizes + le_bytes_u32(a.endian) + rest));
    assert(le_u16_at(s, k) == le_u16_at(s.skip(k), 0));
    lemma_le_u32_round_trip(a.endian, rest);
    assert(s.skip(k + 6) == le_bytes_u32(a.endian) + rest);
    assert(le_u32_at(s, k + 6) == le_u32_at(s.skip(k + 6), 0));
    assert(s[k + 2] == a.size_int && s[k + 3] == a.size_long && s[k + 4] == a.size_float && s[k
        + 5] == a.size_double);
    assert(a.wire().len() == k + 10);
}

/// Decoding the bytes of an envelope gives both headers back, whatever
/// follows them.
pub proof fn lemma_envelope_round_trip(h: Header, a: ArchiveHeaderView, rest: Seq<u8>)
    requires
        h.canonical(),
        a.encodable(),
    ensures
        envelope(h.wire() + a.wire() + rest) == Ok::<
            (Header, ArchiveHeaderView, nat),
            FailureView,
        >((h, a, 12 + a.wire().len())),
{
    let s = h.wire() + a.wire() + rest;
    lemma_header_round_trip(h, a.wire() + rest);
    assert(s == h.wire() + (a.wire() + rest));
    assert(s.skip(12) == a.wire() + rest);
    lemma_archive_round_trip(a, rest);
}

/// Round trip through the cipher and the envelope parser: where a ciphertext
/// is the block-wise encryption of an envelope and what follows it, that is,
/// where it decrypts to those bytes, the datagram made of a tag and that
/// ciphertext gives the tag, those bytes, and both headers with every field
/// as it was, whether or not a body can be decoded behind them.
pub proof fn lemma_sealed_envelope_round_trip(
    key: Seq<u8>,
    tag: Seq<u8>,
    ciphertext: Seq<u8>,
    h: Header,
    a: ArchiveHeaderView,
    rest: Seq<u8>,
)
    requires
        tag.len() == 4,
        ciphertext.len() % 16 == 0,
        h.canonical(),
        a.encodable(),
        ecb_plaintext(key, ciphertext) == h.wire() + a.wire() + rest,
    ensures
        dumped(key, tag + ciphertext) matches Ok(d) && {
            &&& d.magic == tag
            &&& d.plaintext == h.wire() + a.wire() + rest
            &&& envelope(d.plaintext) == Ok::<(Header, ArchiveHeaderView, nat), FailureView>(
                (h, a, 12 + a.wire().len()),
            )
            &&& match d.message {
                Ok(m) => m.header == h && m.archive == a,
                Err(f) => f.header == Some(h) && f.archive == Some(a),
            }
        },
{
    let pkt = tag + ciphertext;
    assert(pkt.subrange(0, 4) == tag);
    assert(pkt.skip(4) == ciphertext);
    lemma_envelope_round_trip(h, a, rest);
}

/// A payload whose ciphertext is not a whole number of blocks gives an error
/// and nothing else: no plaintext, no partly decoded message.
pub proof fn lemma_truncated_ciphertext_is_rejected(key: Seq<u8>, pkt: Seq<u8>)
    requires
        pkt.len() >= 4,
        (pkt.len() - 4) % 16 != 0,
    ensures
        dumped(key, pkt) == Err::<DumpView, CipherError>(CipherError::Misaligned),
{
}

} // verus!
