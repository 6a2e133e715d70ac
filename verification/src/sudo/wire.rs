//! Framed protocol spoken between the sudo supervisor and its askpass helper.
//!
//! A frame is a fixed 14-byte header (magic, version 1, kind, big-endian
//! payload length) followed by the payload. A command payload is the working
//! directory element, a big-endian argument count and one length-prefixed
//! element per argument.

use crate::secret::{SecretBytes, seal_bytes, sealed_bytes, secret_bytes};
use vstd::prelude::*;
use vstd::utf8::encode_utf8;

verus! {

/// Length of a frame header in bytes.
pub const HEADER_LEN: usize = 14;

/// Largest payload that a frame may carry.
pub const MAX_FRAME_LEN: usize = 1048576;

/// Largest number of arguments in a command frame.
pub const MAX_ARGUMENTS: usize = 4096;

/// Largest single element (working directory or argument) in a command frame.
pub const MAX_ELEMENT_LEN: usize = 65536;

/// Length of the hello nonce.
pub const NONCE_LEN: usize = 32;

/// Largest credential that the askpass helper can hand to sudo.
pub const MAX_CREDENTIAL_LEN: usize = 1023;

/// Kinds of frames carried by the sudo protocol, with their one-byte codes.
#[derive(Clone, Copy, Debug, PartialEq, Eq, Structural)]
pub enum FrameKind {
    AskpassHello,
    SupervisorHello,
    Credential,
    Cancel,
    Start,
    Started,
    Exited,
    Failed,
    Stopped,
}

/// Errors reported by the frame codec; every one of them is invalid data.
#[derive(Clone, Copy, Debug, PartialEq, Eq, Structural)]
pub enum WireError {
    UnknownFrameKind,
    InvalidHeader,
    FrameTooLarge,
    CredentialTooLong,
    InvalidCredential,
    InvalidArgumentCount,
    CommandFrameTooLarge,
    TrailingBytes,
    InvalidExitStatus,
    ElementTooLarge,
    InvalidElement,
    Overflowed,
    Truncated,
}

impl WireError {
    /// The human-readable description of the error.
    pub fn message(&self) -> (m: &'static str)
        ensures
            m@ == self.spec_message(),
    {
        match self {
            WireError::UnknownFrameKind => "unknown sudo_once frame kind",
            WireError::InvalidHeader => "invalid sudo_once frame header",
            WireError::FrameTooLarge => "sudo_once frame was too large",
            WireError::CredentialTooLong => "sudo credential exceeded the maximum length",
            WireError::InvalidCredential => "invalid sudo credential frame",
            WireError::InvalidArgumentCount => "invalid sudo command argument count",
            WireError::CommandFrameTooLarge => "sudo command frame was too large",
            WireError::TrailingBytes => "sudo command frame had trailing bytes",
            WireError::InvalidExitStatus => "invalid sudo exit status frame",
            WireError::ElementTooLarge => "sudo_once frame element was too large",
            WireError::InvalidElement => "invalid sudo command element",
            WireError::Overflowed => "sudo command frame overflowed",
            WireError::Truncated => "sudo command frame was truncated",
        }
    }

    pub open spec fn spec_message(self) -> Seq<char> {
        match self {
            WireError::UnknownFrameKind => "unknown sudo_once frame kind"@,
            WireError::InvalidHeader => "invalid sudo_once frame header"@,
            WireError::FrameTooLarge => "sudo_once frame was too large"@,
            WireError::CredentialTooLong => "sudo credential exceeded the maximum length"@,
            WireError::InvalidCredential => "invalid sudo credential frame"@,
            WireError::InvalidArgumentCount => "invalid sudo command argument count"@,
            WireError::CommandFrameTooLarge => "sudo command frame was too large"@,
            WireError::TrailingBytes => "sudo command frame had trailing bytes"@,
            WireError::InvalidExitStatus => "invalid sudo exit status frame"@,
            WireError::ElementTooLarge => "sudo_once frame element was too large"@,
            WireError::InvalidElement => "invalid sudo command element"@,
            WireError::Overflowed => "sudo command frame overflowed"@,
            WireError::Truncated => "sudo command frame was truncated"@,
        }
    }
}

impl FrameKind {
    /// The byte that identifies this kind on the wire.
    pub open spec fn spec_code(self) -> u8 {
        match self {
            FrameKind::AskpassHello => 1,
            FrameKind::SupervisorHello => 2,
            FrameKind::Credential => 10,
            FrameKind::Cancel => 11,
            FrameKind::Start => 12,
            FrameKind::Started => 20,
            FrameKind::Exited => 21,
            FrameKind::Failed => 22,
            FrameKind::Stopped => 23,
        }
    }

    /// The byte that identifies this kind on the wire.
    pub fn code(&self) -> (c: u8)
        ensures
            c == self.spec_code(),
    {
        match self {
            FrameKind::AskpassHello => 1,
            FrameKind::SupervisorHello => 2,
            FrameKind::Credential => 10,
            FrameKind::Cancel => 11,
            FrameKind::Start => 12,
            FrameKind::Started => 20,
            FrameKind::Exited => 21,
            FrameKind::Failed => 22,
            FrameKind::Stopped => 23,
        }
    }
}

/// The frame kind whose code is `value`, if there is one.
pub open spec fn frame_kind_for_code(value: u8) -> Option<FrameKind> {
    if value == 1 {
        Some(FrameKind::AskpassHello)
    } else if value == 2 {
        Some(FrameKind::SupervisorHello)
    } else if value == 10 {
        Some(FrameKind::Credential)
    } else if value == 11 {
        Some(FrameKind::Cancel)
    } else if value == 12 {
        Some(FrameKind::Start)
    } else if value == 20 {
        Some(FrameKind::Started)
    } else if value == 21 {
        Some(FrameKind::Exited)
    } else if value == 22 {
        Some(FrameKind::Failed)
    } else if value == 23 {
        Some(FrameKind::Stopped)
    } else {
        None
    }
}

impl TryFrom<u8> for FrameKind {
    type Error = WireError;

    fn try_from(value: u8) -> (r: Result<FrameKind, WireError>) {
        match value {
            1 => Ok(FrameKind::AskpassHello),
            2 => Ok(FrameKind::SupervisorHello),
            10 => Ok(FrameKind::Credential),
            11 => Ok(FrameKind::Cancel),
            12 => Ok(FrameKind::Start),
            20 => Ok(FrameKind::Started),
            21 => Ok(FrameKind::Exited),
            22 => Ok(FrameKind::Failed),
            23 => Ok(FrameKind::Stopped),
            _ => Err(WireError::UnknownFrameKind),
        }
    }
}

impl vstd::std_specs::convert::TryFromSpecImpl<u8> for FrameKind {
    open spec fn obeys_try_from_spec() -> bool {
        true
    }

    open spec fn try_from_spec(value: u8) -> Result<FrameKind, WireError> {
        match frame_kind_for_code(value) {
            Some(kind) => Ok(kind),
            None => Err(WireError::UnknownFrameKind),
        }
    }
}

/// Every kind's code maps back to the kind, and no two kinds share a code.
pub proof fn lemma_frame_kind_code_roundtrip(kind: FrameKind)
    ensures
        frame_kind_for_code(kind.spec_code()) == Some(kind),
{
}

// ---------------------------------------------------------------------------
// Big-endian 32-bit integers
// ---------------------------------------------------------------------------

/// Big-endian bytes of a value below 2^32.
pub open spec fn be32(v: nat) -> Seq<u8> {
    seq![
        (v / 16777216 % 256) as u8,
        (v / 65536 % 256) as u8,
        (v / 256 % 256) as u8,
        (v % 256) as u8,
    ]
}

/// The value of four big-endian bytes.
pub open spec fn be32_value(b: Seq<u8>) -> nat {
    (b[0] as nat) * 16777216 + (b[1] as nat) * 65536 + (b[2] as nat) * 256 + (b[3] as nat)
}

proof fn lemma_u32_split(v: u32)
    ensures
        ((v >> 24u32) as u8) as nat == v as nat / 16777216 % 256,
        ((v >> 16u32) as u8) as nat == v as nat / 65536 % 256,
        ((v >> 8u32) as u8) as nat == v as nat / 256 % 256,
        (v as u8) as nat == v as nat % 256,
        v as nat == (v as nat / 16777216 % 256) * 16777216 + (v as nat / 65536 % 256) * 65536 + (
        v as nat / 256 % 256) * 256 + v as nat % 256,
{
    assert(((v >> 24u32) as u8) == v / 16777216 % 256) by (bit_vector);
    assert(((v >> 16u32) as u8) == v / 65536 % 256) by (bit_vector);
    assert(((v >> 8u32) as u8) == v / 256 % 256) by (bit_vector);
    assert((v as u8) == v % 256) by (bit_vector);
    assert(v == (v / 16777216 % 256) * 16777216 + (v / 65536 % 256) * 65536 + (v / 256 % 256)
        * 256 + v % 256) by (bit_vector);
}

/// Reading back the bytes of a 32-bit value gives the value.
pub proof fn lemma_be32_roundtrip(v: nat)
    requires
        v < 4294967296,
    ensures
        be32(v).len() == 4,
        be32_value(be32(v)) == v,
{
    lemma_u32_split(v as u32);
}

/// The bytes of the value that four bytes hold are those bytes.
pub proof fn lemma_be32_value_roundtrip(b: Seq<u8>)
    requires
        b.len() == 4,
    ensures
        be32_value(b) < 4294967296,
        be32(be32_value(b)) =~= b,
{
    let b0 = b[0];
    let b1 = b[1];
    let b2 = b[2];
    let b3 = b[3];
    let v: u32 = ((b0 as u32) << 24u32) | ((b1 as u32) << 16u32) | ((b2 as u32) << 8u32) | (
    b3 as u32);
    lemma_combine(b0, b1, b2, b3);
    lemma_u32_split(v);
    assert(v / 16777216 % 256 == b0 && v / 65536 % 256 == b1 && v / 256 % 256 == b2 && v % 256
        == b3) by (bit_vector)
        requires
            v == ((b0 as u32) << 24u32) | ((b1 as u32) << 16u32) | ((b2 as u32) << 8u32) | (
            b3 as u32),
    ;
}

proof fn lemma_combine(b0: u8, b1: u8, b2: u8, b3: u8)
    ensures
        (((b0 as u32) << 24u32) | ((b1 as u32) << 16u32) | ((b2 as u32) << 8u32) | (
        b3 as u32)) as nat == (b0 as nat) * 16777216 + (b1 as nat) * 65536 + (b2 as nat) * 256 + (
        b3 as nat),
{
    assert((((b0 as u32) << 24u32) | ((b1 as u32) << 16u32) | ((b2 as u32) << 8u32) | (
    b3 as u32)) == (b0 as u32) * 16777216 + (b1 as u32) * 65536 + (b2 as u32) * 256 + (b3 as u32))
        by (bit_vector);
}

fn be32_bytes(v: u32) -> (r: [u8; 4])
    ensures
        r@ == be32(v as nat),
{
    proof {
            lemma_u32_split(v);
    }
    let r = [(v >> 24u32) as u8, (v >> 16u32) as u8, (v >> 8u32) as u8, v as u8];
    assert(r@ =~= be32(v as nat));
    r
}

fn be32_read(b0: u8, b1: u8, b2: u8, b3: u8) -> (r: u32)
    ensures
        r as nat == be32_value(seq![b0, b1, b2, b3]),
{
    proof {
        lemma_combine(b0, b1, b2, b3);
    }
    ((b0 as u32) << 24u32) | ((b1 as u32) << 16u32) | ((b2 as u32) << 8u32) | (b3 as u32)
}

// ---------------------------------------------------------------------------
// Frame headers
// ---------------------------------------------------------------------------

/// The magic bytes "CDXSUDO1" that open every header.
pub open spec fn magic() -> Seq<u8> {
    seq![67u8, 68u8, 88u8, 83u8, 85u8, 68u8, 79u8, 49u8]
}

/// The header of a frame of `kind` carrying `payload_len` bytes.
pub open spec fn header_bytes(kind: FrameKind, payload_len: nat) -> Seq<u8> {
    magic() + seq![1u8, kind.spec_code()] + be32(payload_len)
}

/// What a header decodes to.
pub open spec fn spec_decode_header(header: Seq<u8>) -> Result<(FrameKind, nat), WireError> {
    if header.subrange(0, 8) != magic() || header[8] != 1 {
        Err(WireError::InvalidHeader)
    } else {
        match frame_kind_for_code(header[9]) {
            None => Err(WireError::UnknownFrameKind),
            Some(kind) => {
                let len = be32_value(header.subrange(10, 14));
                if len > MAX_FRAME_LEN {
                    Err(WireError::FrameTooLarge)
                } else {
                    Ok((kind, len))
                }
            },
        }
    }
}

/// Builds the header of a frame; payloads above `MAX_FRAME_LEN` are refused.
pub fn encode_header(kind: FrameKind, payload_len: usize) -> (r: Result<[u8; 14], WireError>)
    ensures
        payload_len <= MAX_FRAME_LEN ==> r == Ok::<[u8; 14], WireError>(r->Ok_0) && r->Ok_0@
            == header_bytes(kind, payload_len as nat),
        payload_len > MAX_FRAME_LEN ==> r == Err::<[u8; 14], WireError>(WireError::FrameTooLarge),
{
    if payload_len > MAX_FRAME_LEN {
        return Err(WireError::FrameTooLarge);
    }
    let len = be32_bytes(payload_len as u32);
    let header = [
        67u8,
        68u8,
        88u8,
        83u8,
        85u8,
        68u8,
        79u8,
        49u8,
        1u8,
        kind.code(),
        len[0],
        len[1],
        len[2],
        len[3],
    ];
    assert(header@ =~= header_bytes(kind, payload_len as nat));
    Ok(header)
}

/// Reads a header back into the frame kind and payload length.
pub fn decode_header(header: [u8; 14]) -> (r: Result<(FrameKind, usize), WireError>)
    ensures
        match r {
            Ok((kind, len)) => spec_decode_header(header@) == Ok::<(FrameKind, nat), WireError>(
                (kind, len as nat),
            ),
            Err(e) => spec_decode_header(header@) == Err::<(FrameKind, nat), WireError>(e),
        },
{
    let magic_ok = header[0] == 67u8 && header[1] == 68u8 && header[2] == 88u8 && header[3] == 83u8
        && header[4] == 85u8 && header[5] == 68u8 && header[6] == 79u8 && header[7] == 49u8;
    if !magic_ok || header[8] != 1 {
        proof {
            if magic_ok {
                assert(header@.subrange(0, 8) =~= magic());
            } else {
                assert(header@.subrange(0, 8) != magic()) by {
                    if header@.subrange(0, 8) == magic() {
                        assert(header@.subrange(0, 8)[0] == header@[0]);
                        assert(header@.subrange(0, 8)[1] == header@[1]);
                        assert(header@.subrange(0, 8)[2] == header@[2]);
                        assert(header@.subrange(0, 8)[3] == header@[3]);
                        assert(header@.subrange(0, 8)[4] == header@[4]);
                        assert(header@.subrange(0, 8)[5] == header@[5]);
                        assert(header@.subrange(0, 8)[6] == header@[6]);
                        assert(header@.subrange(0, 8)[7] == header@[7]);
                    }
                }
            }
        }
        return Err(WireError::InvalidHeader);
    }
    assert(header@.subrange(0, 8) =~= magic());
    let kind = FrameKind::try_from(header[9])?;
    let len = be32_read(header[10], header[11], header[12], header[13]);
    assert(header@.subrange(10, 14) =~= seq![header[10], header[11], header[12], header[13]]);
    if len as usize > MAX_FRAME_LEN {
        return Err(WireError::FrameTooLarge);
    }
    Ok((kind, len as usize))
}

/// Decoding a header gives back the kind and length that built it.
pub proof fn lemma_header_roundtrip(kind: FrameKind, payload_len: nat)
    requires
        payload_len <= MAX_FRAME_LEN,
    ensures
        header_bytes(kind, payload_len).len() == HEADER_LEN,
        spec_decode_header(header_bytes(kind, payload_len)) == Ok::<(FrameKind, nat), WireError>(
            (kind, payload_len),
        ),
{
    let h = header_bytes(kind, payload_len);
    lemma_be32_roundtrip(payload_len);
    assert(h.subrange(0, 8) =~= magic());
    assert(h.subrange(10, 14) =~= be32(payload_len));
}

/// A header that decodes is exactly the header built from what it decodes to.
pub proof fn lemma_header_canonical(header: Seq<u8>)
    requires
        header.len() == HEADER_LEN,
        spec_decode_header(header) is Ok,
    ensures
        header == header_bytes(
            spec_decode_header(header)->Ok_0.0,
            spec_decode_header(header)->Ok_0.1,
        ),
{
    let (kind, len) = spec_decode_header(header)->Ok_0;
    lemma_be32_value_roundtrip(header.subrange(10, 14));
    assert(header =~= header_bytes(kind, len));
}

/// The bytes of a whole frame: header then payload.
pub open spec fn frame_bytes(kind: FrameKind, payload: Seq<u8>) -> Seq<u8> {
    header_bytes(kind, payload.len()) + payload
}

/// Builds a whole frame ready to be written to a stream.
pub fn encode_frame(kind: FrameKind, payload: &[u8]) -> (r: Result<Vec<u8>, WireError>)
    ensures
        payload@.len() <= MAX_FRAME_LEN ==> r is Ok && r->Ok_0@ == frame_bytes(kind, payload@),
        payload@.len() > MAX_FRAME_LEN ==> r == Err::<Vec<u8>, WireError>(
            WireError::FrameTooLarge,
        ),
{
    let header = encode_header(kind, payload.len())?;
    let mut out: Vec<u8> = Vec::new();
    let mut i: usize = 0;
    while i < 14
        invariant
            i <= 14,
            out@ == header@.subrange(0, i as int),
        decreases 14 - i,
    {
        out.push(header[i]);
        i = i + 1;
        assert(out@ =~= header@.subrange(0, i as int));
    }
    let mut j: usize = 0;
    while j < payload.len()
        invariant
            j <= payload@.len(),
            out@ == header@ + payload@.subrange(0, j as int),
        decreases payload@.len() - j,
    {
        out.push(payload[j]);
        j = j + 1;
        assert(out@ =~= header@ + payload@.subrange(0, j as int));
    }
    assert(payload@.subrange(0, payload@.len() as int) =~= payload@);
    Ok(out)
}

// ---------------------------------------------------------------------------
// Exit status frames
// ---------------------------------------------------------------------------

/// The payload of an exit frame: the exit code in big-endian two's complement.
pub fn encode_exit_status(exit_code: i32) -> (r: [u8; 4])
    ensures
        r@ == be32((exit_code as u32) as nat),
{
    be32_bytes(exit_code as u32)
}

/// Reads an exit frame's payload; only payloads of exactly four bytes are accepted.
pub fn decode_exit_status(payload: &[u8]) -> (r: Result<i32, WireError>)
    ensures
        payload@.len() == 4 ==> r == Ok::<i32, WireError>(
            (be32_value(payload@) as u32) as i32,
        ),
        payload@.len() != 4 ==> r == Err::<i32, WireError>(WireError::InvalidExitStatus),
{
    if payload.len() != 4 {
        return Err(WireError::InvalidExitStatus);
    }
    let v = be32_read(payload[0], payload[1], payload[2], payload[3]);
    assert(payload@ =~= seq![payload[0], payload[1], payload[2], payload[3]]);
    Ok(v as i32)
}

/// An exit code survives encoding and decoding.
pub proof fn lemma_exit_status_roundtrip(exit_code: i32)
    ensures
        (be32_value(be32((exit_code as u32) as nat)) as u32) as i32 == exit_code,
{
    lemma_be32_roundtrip((exit_code as u32) as nat);
    assert(((exit_code as u32) as i32) == exit_code) by (bit_vector);
}

// ---------------------------------------------------------------------------
// Credentials
// ---------------------------------------------------------------------------

/// A frame read off the wire.
pub struct Frame {
    pub kind: FrameKind,
    pub payload: Vec<u8>,
}

/// Bytes that may not appear in a credential: NUL, carriage return, line feed.
pub open spec fn forbidden_credential_byte(b: u8) -> bool {
    b == 0 || b == 13 || b == 10
}

/// Whether a frame carries an acceptable credential.
pub open spec fn valid_credential_frame(kind: FrameKind, payload: Seq<u8>) -> bool {
    &&& kind == FrameKind::Credential
    &&& payload.len() <= MAX_CREDENTIAL_LEN
    &&& forall|i: int| 0 <= i < payload.len() ==> !forbidden_credential_byte(#[trigger] payload[i])
}

/// A credential accepted from a frame, wiped from memory when dropped.
pub struct CredentialBytes {
    bytes: SecretBytes,
}

impl CredentialBytes {
    pub closed spec fn view(&self) -> Seq<u8> {
        secret_bytes(self.bytes)
    }

    /// The secret bytes.
    pub fn expose_secret(&self) -> (b: &[u8])
        ensures
            b@ == self.view(),
    {
        sealed_bytes(&self.bytes)
    }
}

/// Checks that a credential fits what the askpass helper can hand to sudo.
pub fn check_credential_len(credential: &[u8]) -> (r: Result<(), WireError>)
    ensures
        r is Ok <==> credential@.len() <= MAX_CREDENTIAL_LEN,
        r is Err ==> r == Err::<(), WireError>(WireError::CredentialTooLong),
{
    if credential.len() > MAX_CREDENTIAL_LEN {
        return Err(WireError::CredentialTooLong);
    }
    Ok(())
}

/// Accepts a credential frame: it must be of kind `Credential`, at most
/// `MAX_CREDENTIAL_LEN` bytes, and free of NUL, CR and LF.
pub fn take_credential(frame: Frame) -> (r: Result<CredentialBytes, WireError>)
    ensures
        valid_credential_frame(frame.kind, frame.payload@) ==> r is Ok && r->Ok_0.view()
            == frame.payload@,
        !valid_credential_frame(frame.kind, frame.payload@) ==> r == Err::<
            CredentialBytes,
            WireError,
        >(WireError::InvalidCredential),
{
    if frame.kind != FrameKind::Credential || frame.payload.len() > MAX_CREDENTIAL_LEN {
        return Err(WireError::InvalidCredential);
    }
    let mut i: usize = 0;
    while i < frame.payload.len()
        invariant
            i <= frame.payload@.len(),
            forall|j: int| 0 <= j < i ==> !forbidden_credential_byte(#[trigger] frame.payload@[j]),
        decreases frame.payload@.len() - i,
    {
        let b = frame.payload[i];
        if b == 0 || b == 13 || b == 10 {
            return Err(WireError::InvalidCredential);
        }
        i = i + 1;
    }
    Ok(CredentialBytes { bytes: seal_bytes(frame.payload) })
}


// ---------------------------------------------------------------------------
// Command frames
// ---------------------------------------------------------------------------

/// Whether `element` may stand in a command frame: no NUL byte, at most
/// `MAX_ELEMENT_LEN` bytes, and non-empty unless `allow_empty`.
pub open spec fn valid_element(element: Seq<u8>, allow_empty: bool) -> bool {
    &&& (allow_empty || element.len() > 0)
    &&& element.len() <= MAX_ELEMENT_LEN
    &&& !element.contains(0u8)
}

/// A length-prefixed element.
pub open spec fn element_bytes(element: Seq<u8>) -> Seq<u8> {
    be32(element.len()) + element
}

/// The length-prefixed arguments, one after the other.
pub open spec fn args_bytes(argv: Seq<Seq<u8>>) -> Seq<u8>
    decreases argv.len(),
{
    if argv.len() == 0 {
        seq![]
    } else {
        element_bytes(argv[0]) + args_bytes(argv.drop_first())
    }
}

/// The payload of a command frame.
pub open spec fn command_payload(cwd: Seq<u8>, argv: Seq<Seq<u8>>) -> Seq<u8> {
    element_bytes(cwd) + be32(argv.len()) + args_bytes(argv)
}

/// Every argument is a valid element; only the first one must be non-empty.
pub open spec fn valid_argv(argv: Seq<Seq<u8>>) -> bool {
    forall|i: int| 0 <= i < argv.len() ==> valid_element(#[trigger] argv[i], i != 0)
}

/// The UTF-8 bytes of each argument.
pub open spec fn argv_bytes(argv: Seq<String>) -> Seq<Seq<u8>> {
    argv.map_values(|s: String| encode_utf8(s@))
}

/// What encoding a command gives.
pub open spec fn spec_encode_command(cwd: Seq<u8>, argv: Seq<Seq<u8>>) -> Result<Seq<u8>, WireError> {
    if argv.len() == 0 || argv.len() > MAX_ARGUMENTS {
        Err(WireError::InvalidArgumentCount)
    } else if !valid_element(cwd, false) || !valid_argv(argv) {
        Err(WireError::InvalidElement)
    } else if command_payload(cwd, argv).len() > MAX_FRAME_LEN {
        Err(WireError::CommandFrameTooLarge)
    } else {
        Ok(command_payload(cwd, argv))
    }
}

/// Checks one element.
pub fn validate_element(element: &[u8], allow_empty: bool) -> (r: Result<(), WireError>)
    ensures
        r is Ok <==> valid_element(element@, allow_empty),
        r is Err ==> r == Err::<(), WireError>(WireError::InvalidElement),
{
    if (!allow_empty && element.len() == 0) || element.len() > MAX_ELEMENT_LEN {
        return Err(WireError::InvalidElement);
    }
    let mut i: usize = 0;
    while i < element.len()
        invariant
            i <= element@.len(),
            forall|j: int| 0 <= j < i ==> element@[j] != 0u8,
        decreases element@.len() - i,
    {
        if element[i] == 0 {
            assert(element@.contains(0u8)) by {
                assert(element@[i as int] == 0u8);
            }
            return Err(WireError::InvalidElement);
        }
        i = i + 1;
    }
    Ok(())
}

/// Appends `value` as four big-endian bytes; values above `u32::MAX` are refused.
pub fn append_u32(payload: &mut Vec<u8>, value: usize) -> (r: Result<(), WireError>)
    ensures
        value <= u32::MAX ==> r is Ok && final(payload)@ == old(payload)@ + be32(value as nat),
        value > u32::MAX ==> r == Err::<(), WireError>(WireError::ElementTooLarge)
            && final(payload)@ == old(payload)@,
{
    if value > 4294967295usize {
        return Err(WireError::ElementTooLarge);
    }
    let bytes = be32_bytes(value as u32);
    payload.push(bytes[0]);
    payload.push(bytes[1]);
    payload.push(bytes[2]);
    payload.push(bytes[3]);
    assert(payload@ =~= old(payload)@ + be32(value as nat));
    Ok(())
}

fn append_bytes(payload: &mut Vec<u8>, bytes: &[u8])
    ensures
        final(payload)@ == old(payload)@ + bytes@,
{
    let mut i: usize = 0;
    while i < bytes.len()
        invariant
            i <= bytes@.len(),
            payload@ == old(payload)@ + bytes@.subrange(0, i as int),
        decreases bytes@.len() - i,
    {
        payload.push(bytes[i]);
        i = i + 1;
        assert(payload@ =~= old(payload)@ + bytes@.subrange(0, i as int));
    }
    assert(bytes@.subrange(0, bytes@.len() as int) =~= bytes@);
}

/// Checks an element and appends it with its length prefix.
pub fn append_element(payload: &mut Vec<u8>, element: &[u8], allow_empty: bool) -> (r: Result<
    (),
    WireError,
>)
    ensures
        valid_element(element@, allow_empty) ==> r is Ok && final(payload)@ == old(payload)@
            + element_bytes(element@),
        !valid_element(element@, allow_empty) ==> r == Err::<(), WireError>(
            WireError::InvalidElement,
        ) && final(payload)@ == old(payload)@,
{
    validate_element(element, allow_empty)?;
    append_u32(payload, element.len())?;
    append_bytes(payload, element);
    assert(payload@ =~= old(payload)@ + element_bytes(element@));
    Ok(())
}

proof fn lemma_args_bytes_push(argv: Seq<Seq<u8>>, e: Seq<u8>)
    ensures
        args_bytes(argv.push(e)) =~= args_bytes(argv) + element_bytes(e),
    decreases argv.len(),
{
    if argv.len() == 0 {
        assert(argv.push(e).drop_first() =~= Seq::<Seq<u8>>::empty());
        assert(args_bytes(Seq::<Seq<u8>>::empty()) =~= Seq::<u8>::empty());
    } else {
        assert(argv.push(e).drop_first() =~= argv.drop_first().push(e));
        lemma_args_bytes_push(argv.drop_first(), e);
    }
}

/// Encodes the working directory and arguments of an approved command.
pub fn encode_command(cwd: &[u8], argv: &[String]) -> (r: Result<Vec<u8>, WireError>)
    ensures
        match r {
            Ok(payload) => spec_encode_command(cwd@, argv_bytes(argv@)) == Ok::<
                Seq<u8>,
                WireError,
            >(payload@),
            Err(e) => spec_encode_command(cwd@, argv_bytes(argv@)) == Err::<Seq<u8>, WireError>(e),
        },
{
    let ghost args = argv_bytes(argv@);
    if argv.len() == 0 || argv.len() > MAX_ARGUMENTS {
        return Err(WireError::InvalidArgumentCount);
    }
    validate_element(cwd, false)?;
    let mut payload: Vec<u8> = Vec::new();
    append_element(&mut payload, cwd, false)?;
    append_u32(&mut payload, argv.len())?;
    assert(payload@ =~= element_bytes(cwd@) + be32(args.len()));
    let mut index: usize = 0;
    while index < argv.len()
        invariant
            index <= argv@.len(),
            0 < argv@.len() <= MAX_ARGUMENTS,
            valid_element(cwd@, false),
            args == argv_bytes(argv@),
            args.len() == argv@.len(),
            forall|i: int| 0 <= i < index ==> valid_element(#[trigger] args[i], i != 0),
            payload@ == element_bytes(cwd@) + be32(args.len()) + args_bytes(
                args.subrange(0, index as int),
            ),
        decreases argv@.len() - index,
    {
        let bytes = argv[index].as_str().as_bytes();
        assert(bytes@ == args[index as int]);
        let ghost before = payload@;
        let step = append_element(&mut payload, bytes, index != 0);
        if step.is_err() {
            assert(!valid_argv(args)) by {
                assert(!valid_element(args[index as int], index != 0));
            }
            assert(valid_element(cwd@, false));
            assert(spec_encode_command(cwd@, args) == Err::<Seq<u8>, WireError>(
                WireError::InvalidElement,
            ));
            return Err(WireError::InvalidElement);
        }
        proof {
            lemma_args_bytes_push(args.subrange(0, index as int), args[index as int]);
            assert(args.subrange(0, index + 1) =~= args.subrange(0, index as int).push(
                args[index as int],
            ));
        }
        index = index + 1;
    }
    assert(args.subrange(0, args.len() as int) =~= args);
    if payload.len() > MAX_FRAME_LEN {
        return Err(WireError::CommandFrameTooLarge);
    }
    Ok(payload)
}


// ---------------------------------------------------------------------------
// Decoding command frames
// ---------------------------------------------------------------------------

/// Reading a big-endian count at `offset`: the value and the offset after it.
pub open spec fn spec_take_u32(p: Seq<u8>, offset: nat) -> Result<(nat, nat), WireError> {
    if offset + 4 > usize::MAX {
        Err(WireError::Overflowed)
    } else if offset + 4 > p.len() {
        Err(WireError::Truncated)
    } else {
        Ok((be32_value(p.subrange(offset as int, offset + 4int)), offset + 4))
    }
}

/// Reading a length-prefixed element at `offset`: the element and the offset after it.
#[verifier::opaque]
pub open spec fn spec_take_element(p: Seq<u8>, offset: nat, allow_empty: bool) -> Result<
    (Seq<u8>, nat),
    WireError,
> {
    match spec_take_u32(p, offset) {
        Err(e) => Err(e),
        Ok((len, start)) => {
            if (!allow_empty && len == 0) || len > MAX_ELEMENT_LEN {
                Err(WireError::InvalidElement)
            } else if start + len > usize::MAX {
                Err(WireError::Overflowed)
            } else if start + len > p.len() {
                Err(WireError::Truncated)
            } else if p.subrange(start as int, (start + len) as int).contains(0u8) {
                Err(WireError::InvalidElement)
            } else {
                Ok((p.subrange(start as int, (start + len) as int), start + len))
            }
        },
    }
}

/// Reading `remaining` arguments from `offset`; the first of a frame may not be empty.
#[verifier::opaque]
pub open spec fn spec_take_args(p: Seq<u8>, offset: nat, remaining: nat, first: bool) -> Result<
    (Seq<Seq<u8>>, nat),
    WireError,
>
    decreases remaining,
{
    if remaining == 0 {
        Ok((seq![], offset))
    } else {
        match spec_take_element(p, offset, !first) {
            Err(e) => Err(e),
            Ok((element, next)) => match spec_take_args(p, next, (remaining - 1) as nat, false) {
                Err(e) => Err(e),
                Ok((rest, end)) => Ok((seq![element] + rest, end)),
            },
        }
    }
}

/// What a command payload decodes to: the working directory and the arguments.
pub open spec fn spec_decode_command(p: Seq<u8>) -> Result<(Seq<u8>, Seq<Seq<u8>>), WireError> {
    match spec_take_element(p, 0, false) {
        Err(e) => Err(e),
        Ok((cwd, after_cwd)) => match spec_take_u32(p, after_cwd) {
            Err(e) => Err(e),
            Ok((count, after_count)) => {
                if count == 0 || count > MAX_ARGUMENTS {
                    Err(WireError::InvalidArgumentCount)
                } else {
                    match spec_take_args(p, after_count, count, true) {
                        Err(e) => Err(e),
                        Ok((argv, end)) => {
                            if end != p.len() {
                                Err(WireError::TrailingBytes)
                            } else {
                                Ok((cwd, argv))
                            }
                        },
                    }
                }
            },
        },
    }
}

/// A decoded command frame.
#[derive(Debug, PartialEq, Eq)]
pub struct CommandFrame {
    pub cwd: Vec<u8>,
    pub argv: Vec<Vec<u8>>,
}

impl CommandFrame {
    /// The arguments as byte sequences.
    pub open spec fn argv_view(&self) -> Seq<Seq<u8>> {
        self.argv@.map_values(|a: Vec<u8>| a@)
    }
}

/// Copies `p[start..end]`, or gives `None` when that range holds a NUL byte.
fn copy_without_nul(p: &[u8], start: usize, end: usize) -> (r: Option<Vec<u8>>)
    requires
        start <= end <= p@.len(),
    ensures
        match r {
            Some(v) => v@ == p@.subrange(start as int, end as int) && !v@.contains(0u8),
            None => p@.subrange(start as int, end as int).contains(0u8),
        },
{
    let mut element: Vec<u8> = Vec::new();
    let mut i = start;
    while i < end
        invariant
            start <= i <= end <= p@.len(),
            element@ == p@.subrange(start as int, i as int),
            !element@.contains(0u8),
        decreases end - i,
    {
        let b = p[i];
        if b == 0 {
            assert(p@.subrange(start as int, end as int)[i - start] == 0u8);
            return None;
        }
        element.push(b);
        i = i + 1;
        assert(element@ =~= p@.subrange(start as int, i as int));
    }
    Some(element)
}

/// A read position within a command payload.
pub struct Cursor<'a> {
    payload: &'a [u8],
    offset: usize,
}

impl<'a> Cursor<'a> {
    pub closed spec fn bytes(&self) -> Seq<u8> {
        self.payload@
    }

    pub closed spec fn position(&self) -> nat {
        self.offset as nat
    }

    pub closed spec fn wf(&self) -> bool {
        self.offset <= self.payload@.len()
    }

    /// A cursor at the start of `payload`.
    pub fn new(payload: &'a [u8]) -> (c: Self)
        ensures
            c.wf(),
            c.bytes() == payload@,
            c.position() == 0,
    {
        Cursor { payload, offset: 0 }
    }

    /// Reads a big-endian count and advances past it.
    pub fn take_u32(&mut self) -> (r: Result<usize, WireError>)
        requires
            old(self).wf(),
        ensures
            final(self).wf(),
            final(self).bytes() == old(self).bytes(),
            match r {
                Ok(v) => spec_take_u32(old(self).bytes(), old(self).position()) == Ok::<
                    (nat, nat),
                    WireError,
                >((v as nat, final(self).position())),
                Err(e) => spec_take_u32(old(self).bytes(), old(self).position()) == Err::<
                    (nat, nat),
                    WireError,
                >(e) && final(self).position() == old(self).position(),
            },
    {
        if self.offset > usize::MAX - 4 {
            return Err(WireError::Overflowed);
        }
        let end = self.offset + 4;
        if end > self.payload.len() {
            return Err(WireError::Truncated);
        }
        let o = self.offset;
        let v = be32_read(self.payload[o], self.payload[o + 1], self.payload[o + 2], self.payload[o
            + 3]);
        assert(self.payload@.subrange(o as int, o + 4) =~= seq![
            self.payload@[o as int],
            self.payload@[o + 1],
            self.payload@[o + 2],
            self.payload@[o + 3],
        ]);
        self.offset = end;
        Ok(v as usize)
    }

    /// Reads a length-prefixed element and advances past it.
    pub fn take_element(&mut self, allow_empty: bool) -> (r: Result<Vec<u8>, WireError>)
        requires
            old(self).wf(),
        ensures
            final(self).wf(),
            final(self).bytes() == old(self).bytes(),
            match r {
                Ok(v) => spec_take_element(old(self).bytes(), old(self).position(), allow_empty)
                    == Ok::<(Seq<u8>, nat), WireError>((v@, final(self).position())),
                Err(e) => spec_take_element(old(self).bytes(), old(self).position(), allow_empty)
                    == Err::<(Seq<u8>, nat), WireError>(e),
            },
    {
        proof {
            reveal(spec_take_element);
        }
        let length = self.take_u32()?;
        if (!allow_empty && length == 0) || length > MAX_ELEMENT_LEN {
            return Err(WireError::InvalidElement);
        }
        if self.offset > usize::MAX - length {
            return Err(WireError::Overflowed);
        }
        let end = self.offset + length;
        if end > self.payload.len() {
            return Err(WireError::Truncated);
        }
        let element = copy_without_nul(self.payload, self.offset, end);
        let element = match element {
            Some(element) => element,
            None => {
                return Err(WireError::InvalidElement);
            },
        };
        self.offset = end;
        Ok(element)
    }

    /// Whether every byte has been read.
    pub fn is_empty(&self) -> (b: bool)
        ensures
            b == (self.position() == self.bytes().len()),
    {
        self.offset == self.payload.len()
    }
}

/// Adds `prefix` in front of the arguments that a decoding step produced.
pub open spec fn prepend_args(prefix: Seq<Seq<u8>>, r: Result<(Seq<Seq<u8>>, nat), WireError>) -> Result<
    (Seq<Seq<u8>>, nat),
    WireError,
> {
    match r {
        Ok((rest, end)) => Ok((prefix + rest, end)),
        Err(e) => Err(e),
    }
}

/// Decodes a command payload; it must hold exactly the working directory,
/// between 1 and `MAX_ARGUMENTS` arguments and nothing else.
pub fn decode_command(payload: &[u8]) -> (r: Result<CommandFrame, WireError>)
    ensures
        match r {
            Ok(frame) => spec_decode_command(payload@) == Ok::<
                (Seq<u8>, Seq<Seq<u8>>),
                WireError,
            >((frame.cwd@, frame.argv_view())),
            Err(e) => spec_decode_command(payload@) == Err::<(Seq<u8>, Seq<Seq<u8>>), WireError>(
                e,
            ),
        },
{
    proof {
        reveal(spec_take_args);
        reveal(spec_take_element);
    }
    let mut cursor = Cursor::new(payload);
    let cwd = cursor.take_element(false)?;
    let ghost after_cwd = cursor.position();
    let argument_count = cursor.take_u32()?;
    if argument_count == 0 || argument_count > MAX_ARGUMENTS {
        return Err(WireError::InvalidArgumentCount);
    }
    let ghost start = cursor.position();
    let mut argv: Vec<Vec<u8>> = Vec::new();
    let mut index: usize = 0;
    while index < argument_count
        invariant
            cursor.wf(),
            cursor.bytes() == payload@,
            index <= argument_count,
            0 < argument_count <= MAX_ARGUMENTS,
            spec_take_element(payload@, 0, false) == Ok::<(Seq<u8>, nat), WireError>(
                (cwd@, after_cwd),
            ),
            spec_take_u32(payload@, after_cwd) == Ok::<(nat, nat), WireError>(
                (argument_count as nat, start),
            ),
            spec_take_args(payload@, start, argument_count as nat, true) == prepend_args(
                argv@.map_values(|a: Vec<u8>| a@),
                spec_take_args(payload@, cursor.position(), (argument_count - index) as nat, index == 0),
            ),
        decreases argument_count - index,
    {
        let ghost before = argv@.map_values(|a: Vec<u8>| a@);
        let ghost before_pos = cursor.position();
        proof {
            reveal(spec_take_args);
            reveal_with_fuel(spec_take_args, 2);
        }
        let element = match cursor.take_element(index != 0) {
            Ok(element) => element,
            Err(e) => {
                assert(spec_take_args(payload@, before_pos, (argument_count - index) as nat, index == 0)
                    == Err::<(Seq<Seq<u8>>, nat), WireError>(e));
                return Err(e);
            },
        };
        argv.push(element);
        proof {
            assert(argv@.map_values(|a: Vec<u8>| a@) =~= before.push(element@));
            let r = spec_take_args(payload@, cursor.position(), (argument_count - index - 1) as nat, false);
            match r {
                Ok((rest, end)) => {
                    assert(before + (seq![element@] + rest) =~= before.push(element@) + rest);
                },
                Err(e) => {},
            }
        }
        index = index + 1;
    }
    if !cursor.is_empty() {
        return Err(WireError::TrailingBytes);
    }
    assert(argv@.map_values(|a: Vec<u8>| a@) + Seq::<Seq<u8>>::empty() =~= argv@.map_values(
        |a: Vec<u8>| a@,
    ));
    Ok(CommandFrame { cwd, argv })
}


// ---------------------------------------------------------------------------
// Round trip of command frames
// ---------------------------------------------------------------------------

proof fn lemma_take_u32_at(p: Seq<u8>, offset: nat, v: nat)
    requires
        v < 4294967296,
        offset + 4 <= p.len() <= usize::MAX,
        p.subrange(offset as int, offset + 4int) == be32(v),
    ensures
        spec_take_u32(p, offset) == Ok::<(nat, nat), WireError>((v, offset + 4)),
{
    lemma_be32_roundtrip(v);
}

proof fn lemma_take_element_at(p: Seq<u8>, offset: nat, element: Seq<u8>, allow_empty: bool)
    requires
        valid_element(element, allow_empty),
        offset + element_bytes(element).len() <= p.len() <= usize::MAX,
        p.subrange(offset as int, (offset + element_bytes(element).len()) as int) == element_bytes(element),
    ensures
        spec_take_element(p, offset, allow_empty) == Ok::<(Seq<u8>, nat), WireError>(
            (element, offset + 4 + element.len()),
        ),
{
    reveal(spec_take_element);
    let eb = element_bytes(element);
    let sub = p.subrange(offset as int, (offset + eb.len()) as int);
    assert(p.subrange(offset as int, offset + 4int) =~= sub.subrange(0, 4));
    assert(sub.subrange(0, 4) =~= be32(element.len()));
    lemma_take_u32_at(p, offset, element.len());
    assert(p.subrange(offset + 4int, (offset + 4 + element.len()) as int) =~= sub.subrange(
        4,
        eb.len() as int,
    ));
    assert(sub.subrange(4, eb.len() as int) =~= element);
}

proof fn lemma_take_args_at(p: Seq<u8>, offset: nat, argv: Seq<Seq<u8>>, first: bool)
    requires
        forall|i: int| 0 <= i < argv.len() ==> valid_element(#[trigger] argv[i], !(first && i == 0)),
        offset + args_bytes(argv).len() <= p.len() <= usize::MAX,
        p.subrange(offset as int, (offset + args_bytes(argv).len()) as int) == args_bytes(argv),
    ensures
        spec_take_args(p, offset, argv.len(), first) == Ok::<(Seq<Seq<u8>>, nat), WireError>(
            (argv, offset + args_bytes(argv).len()),
        ),
    decreases argv.len(),
{
    reveal(spec_take_args);
    if argv.len() == 0 {
        assert(argv =~= Seq::<Seq<u8>>::empty());
    } else {
        let head = argv[0];
        let rest = argv.drop_first();
        let hb = element_bytes(head);
        let all = args_bytes(argv);
        assert(all == hb + args_bytes(rest));
        let sub = p.subrange(offset as int, (offset + all.len()) as int);
        assert(p.subrange(offset as int, (offset + hb.len()) as int) =~= sub.subrange(0, hb.len() as int));
        assert(sub.subrange(0, hb.len() as int) =~= hb);
        assert(valid_element(argv[0], !(first && 0 == 0)));
        lemma_take_element_at(p, offset, head, !first);
        assert(p.subrange((offset + hb.len()) as int, (offset + all.len()) as int) =~= sub.subrange(
            hb.len() as int,
            all.len() as int,
        ));
        assert(sub.subrange(hb.len() as int, all.len() as int) =~= args_bytes(rest));
        assert forall|i: int| 0 <= i < rest.len() implies valid_element(
            #[trigger] rest[i],
            !(false && i == 0),
        ) by {
            assert(rest[i] == argv[i + 1]);
            assert(valid_element(argv[i + 1], !(first && i + 1 == 0)));
        }
        lemma_take_args_at(p, offset + hb.len(), rest, false);
        assert((argv.len() - 1) as nat == rest.len());
        assert(seq![head] + rest =~= argv);
    }
}

proof fn lemma_payload_parts(cwd: Seq<u8>, argv: Seq<Seq<u8>>)
    ensures
        ({
            let p = command_payload(cwd, argv);
            let cb = element_bytes(cwd);
            let ab = args_bytes(argv);
            &&& p.len() == cb.len() + 4 + ab.len()
            &&& p.subrange(0, cb.len() as int) == cb
            &&& p.subrange(cb.len() as int, cb.len() + 4int) == be32(argv.len())
            &&& p.subrange(cb.len() + 4int, p.len() as int) == ab
        }),
{
    let p = command_payload(cwd, argv);
    let cb = element_bytes(cwd);
    let ab = args_bytes(argv);
    let b = be32(argv.len());
    assert(b.len() == 4);
    assert(p =~= cb + b + ab);
    assert(p.subrange(0, cb.len() as int) =~= cb);
    assert(p.subrange(cb.len() as int, cb.len() + 4int) =~= b);
    assert(p.subrange(cb.len() + 4int, p.len() as int) =~= ab);
}

proof fn lemma_decode_command_payload(cwd: Seq<u8>, argv: Seq<Seq<u8>>)
    requires
        0 < argv.len() <= MAX_ARGUMENTS,
        valid_element(cwd, false),
        valid_argv(argv),
        command_payload(cwd, argv).len() <= MAX_FRAME_LEN,
    ensures
        spec_decode_command(command_payload(cwd, argv)) == Ok::<
            (Seq<u8>, Seq<Seq<u8>>),
            WireError,
        >((cwd, argv)),
{
    let p = command_payload(cwd, argv);
    let cb = element_bytes(cwd);
    let ab = args_bytes(argv);
    lemma_payload_parts(cwd, argv);
    lemma_take_element_at(p, 0, cwd, false);
    lemma_take_u32_at(p, cb.len(), argv.len());
    assert forall|i: int| 0 <= i < argv.len() implies valid_element(
        #[trigger] argv[i],
        !(true && i == 0),
    ) by {
        assert(valid_element(argv[i], i != 0));
    }
    assert(p.subrange((cb.len() + 4) as int, (cb.len() + 4 + ab.len()) as int) == ab);
    lemma_take_args_at(p, cb.len() + 4, argv, true);
}

/// Decoding an encoded command gives back the working directory and the
/// exact arguments that were approved.
pub proof fn lemma_command_roundtrip(cwd: Seq<u8>, argv: Seq<Seq<u8>>)
    requires
        spec_encode_command(cwd, argv) is Ok,
    ensures
        spec_decode_command(spec_encode_command(cwd, argv)->Ok_0) == Ok::<
            (Seq<u8>, Seq<Seq<u8>>),
            WireError,
        >((cwd, argv)),
{
    lemma_decode_command_payload(cwd, argv);
}

} // verus!
