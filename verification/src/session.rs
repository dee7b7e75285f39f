//! One connection's session: the role-ordered handshake, the derived session
//! key, and the two data paths — inbound frames decrypted to plaintext,
//! outbound lines encrypted to frames.
//!
//! The session is a state machine over whole bytes and frames; the transport
//! that produces and consumes those bytes is outside it. Callers feed it
//! received bytes, lines of input, and the fact of stream closure, and carry
//! out the sends it hands back.

use vstd::prelude::*;

use crate::codec::copy_range;
use crate::codec::decode_frame;
use crate::codec::encode_frame;
use crate::codec::frame_of;
use crate::codec::lemma_frame_round_trip;
use crate::codec::parse_frame;
use crate::crypto::aead_from_key;
use crate::crypto::context_label;
use crate::crypto::decrypt_message;
use crate::crypto::decrypt_spec;
use crate::crypto::derive_key_from_shared;
use crate::crypto::dh_shared;
use crate::crypto::encrypt_message;
use crate::crypto::gen_x25519_keypair;
use crate::crypto::hkdf_key;
use crate::crypto::pubkey_of;
use crate::crypto::shared_secret_bytes;
use crate::errors::ChatError;

verus! {

/// Which side of the connection this session is. The server sends its public
/// key first and then reads the peer's; the client reads first and then
/// sends. The fixed order avoids a deadlock where both sides block reading.
#[derive(Clone, Copy, PartialEq, Eq, Structural, Debug)]
pub enum Role {
    Server,
    Client,
}

/// Where the session stands: performing the handshake, established with a
/// session key, or closed (terminal, reached from any state on fatal error).
#[derive(Clone, Copy, PartialEq, Eq, Structural, Debug)]
pub enum Phase {
    Handshake,
    Established,
    Closed,
}

/// What polling the session reports: the handshake completed (with the reply
/// frame to send, for a client), or one decrypted inbound message.
pub enum SessionEvent {
    Handshaked(Option<Vec<u8>>),
    Message(Vec<u8>),
}

/// What to do with one line of input: nothing for a blank line, end the
/// session for the quit signal, or send the encrypted frame.
pub enum SendStep {
    Skip,
    Quit,
    Frame(Vec<u8>),
}

/// An ASCII whitespace byte: space, tab, line feed or carriage return.
pub open spec fn is_ws(b: u8) -> bool {
    b == 32 || b == 9 || b == 10 || b == 13
}

/// A line of nothing but whitespace.
pub open spec fn line_blank(s: Seq<u8>) -> bool {
    forall|i: int| 0 <= i < s.len() ==> is_ws(#[trigger] s[i])
}

/// `s` with leading whitespace removed.
pub open spec fn trim_front(s: Seq<u8>) -> Seq<u8>
    decreases s.len(),
{
    if s.len() > 0 && is_ws(s[0]) {
        trim_front(s.skip(1))
    } else {
        s
    }
}

/// `s` with trailing whitespace removed.
pub open spec fn trim_back(s: Seq<u8>) -> Seq<u8>
    decreases s.len(),
{
    if s.len() > 0 && is_ws(s[s.len() - 1]) {
        trim_back(s.take(s.len() - 1))
    } else {
        s
    }
}

/// `s` with whitespace removed at both ends.
pub open spec fn trim_ws(s: Seq<u8>) -> Seq<u8> {
    trim_back(trim_front(s))
}

/// The quit signal, once trimmed: the bytes of "/quit".
pub open spec fn quit_bytes() -> Seq<u8> {
    seq![47u8, 113u8, 117u8, 105u8, 116u8]
}

/// A line whose trimmed content is exactly the quit signal.
pub open spec fn line_quit(s: Seq<u8>) -> bool {
    trim_ws(s) == quit_bytes()
}

/// When the first `i` bytes are whitespace and byte `i` (if any) is not,
/// trimming the front drops exactly those `i` bytes.
proof fn lemma_trim_front_is_skip(s: Seq<u8>, i: int)
    requires
        0 <= i <= s.len(),
        forall|k: int| 0 <= k < i ==> is_ws(#[trigger] s[k]),
        i == s.len() || !is_ws(s[i]),
    ensures
        trim_front(s) == s.skip(i),
    decreases i,
{
    if i == 0 {
        assert(s.skip(0) =~= s);
    } else {
        lemma_trim_front_is_skip(s.skip(1), i - 1);
        assert(s.skip(1).skip(i - 1) =~= s.skip(i));
    }
}

/// When the bytes from `j` on are whitespace and byte `j - 1` (if any) is
/// not, trimming the back keeps exactly the first `j` bytes.
proof fn lemma_trim_back_is_take(s: Seq<u8>, j: int)
    requires
        0 <= j <= s.len(),
        forall|k: int| j <= k < s.len() ==> is_ws(#[trigger] s[k]),
        j == 0 || !is_ws(s[j - 1]),
    ensures
        trim_back(s) == s.take(j),
    decreases s.len() - j,
{
    if j == s.len() {
        assert(s.take(j) =~= s);
    } else {
        lemma_trim_back_is_take(s.take(s.len() - 1), j);
        assert(s.take(s.len() - 1).take(j) =~= s.take(j));
    }
}

/// An ASCII whitespace byte: space, tab, line feed or carriage return.
fn ws_byte(b: u8) -> (r: bool)
    ensures
        r == is_ws(b),
{
    b == 32 || b == 9 || b == 10 || b == 13
}

/// How one line of input is classified.
#[derive(Clone, Copy, PartialEq, Eq, Structural, Debug)]
pub enum LineClass {
    Blank,
    Quit,
    Message,
}

/// Classify one line of input: whitespace-only lines are blank, a line whose
/// trimmed content is the quit signal is the quit, anything else is a message
/// to send.
pub fn classify_line(line: &Vec<u8>) -> (r: LineClass)
    ensures
        line_blank(line@) ==> r == LineClass::Blank,
        !line_blank(line@) && line_quit(line@) ==> r == LineClass::Quit,
        !line_blank(line@) && !line_quit(line@) ==> r == LineClass::Message,
{
    let n: usize = line.len();
    let mut i: usize = 0;
    while i < n && ws_byte(line[i])
        invariant
            i <= n,
            n == line@.len(),
            forall|k: int| 0 <= k < i ==> is_ws(#[trigger] line@[k]),
        decreases n - i,
    {
        i += 1;
    }
    if i == n {
        return LineClass::Blank;
    }
    let mut j: usize = n;
    while j > i + 1 && ws_byte(line[j - 1])
        invariant
            i < j <= n,
            n == line@.len(),
            !is_ws(line@[i as int]),
            forall|k: int| j <= k < n ==> is_ws(#[trigger] line@[k]),
        decreases j,
    {
        j -= 1;
    }
    proof {
        // The back scan stopped either at the non-whitespace byte `i` or at a
        // later byte the loop condition saw was not whitespace.
        assert(!is_ws(line@[j - 1]));
        lemma_trim_front_is_skip(line@, i as int);
        lemma_trim_back_is_take(line@.skip(i as int), j - i as int);
        assert(line@.skip(i as int).take(j - i as int) =~= line@.subrange(i as int, j as int));
        assert(trim_ws(line@) == line@.subrange(i as int, j as int));
    }
    if j - i == 5 && line[i] == 47 && line[i + 1] == 113 && line[i + 2] == 117 && line[i + 3]
        == 105 && line[i + 4] == 116 {
        proof {
            assert(line@.subrange(i as int, j as int) =~= quit_bytes());
        }
        LineClass::Quit
    } else {
        proof {
            let t = line@.subrange(i as int, j as int);
            if t == quit_bytes() {
                assert(t.len() == 5);
                assert(line@[i as int] == t[0]);
                assert(line@[i + 1 as int] == t[1]);
                assert(line@[i + 2 as int] == t[2]);
                assert(line@[i + 3 as int] == t[3]);
                assert(line@[i + 4 as int] == t[4]);
            }
        }
        LineClass::Message
    }
}

/// One connection's session: its role, its phase, the ephemeral keypair made
/// at construction, the session key once derived, and the buffer that
/// reassembles frames from the byte stream (partial frames stay here, never
/// exposed).
#[derive(Clone)]
pub struct Session {
    role: Role,
    phase: Phase,
    secret: Vec<u8>,
    public: Vec<u8>,
    key: Vec<u8>,
    inbuf: Vec<u8>,
}

impl Session {
    /// Which side this session is.
    pub closed spec fn role_spec(&self) -> Role {
        self.role
    }

    /// Where the session stands.
    pub closed spec fn phase_spec(&self) -> Phase {
        self.phase
    }

    /// The ephemeral secret scalar.
    pub closed spec fn secret_view(&self) -> Seq<u8> {
        self.secret@
    }

    /// The ephemeral public key.
    pub closed spec fn public_view(&self) -> Seq<u8> {
        self.public@
    }

    /// The derived session key; empty until the handshake completes.
    pub closed spec fn key_view(&self) -> Seq<u8> {
        self.key@
    }

    /// The bytes received but not yet consumed as frames.
    pub closed spec fn buffered(&self) -> Seq<u8> {
        self.inbuf@
    }

    /// A well-formed session: a 32-byte secret whose public key the session
    /// carries, and a 32-byte session key once established.
    pub open spec fn wf(&self) -> bool {
        &&& self.secret_view().len() == 32
        &&& self.public_view().len() == 32
        &&& self.public_view() == pubkey_of(self.secret_view())
        &&& (self.phase_spec() == Phase::Established ==> self.key_view().len() == 32)
    }

    /// The session key both peers of a completed exchange hold: the handshake
    /// key derivation applied to the Diffie-Hellman shared secret.
    pub open spec fn session_key_of(sk: Seq<u8>, peer_pk: Seq<u8>) -> Seq<u8> {
        hkdf_key(dh_shared(sk, peer_pk), context_label())
    }

    /// A fresh session for one connection: a new ephemeral keypair, the
    /// handshake not yet performed, nothing buffered.
    pub fn new(role: Role) -> (s: Session)
        ensures
            s.wf(),
            s.role_spec() == role,
            s.phase_spec() == Phase::Handshake,
            s.buffered() == Seq::<u8>::empty(),
    {
        let (sk, pk) = gen_x25519_keypair();
        Session {
            role,
            phase: Phase::Handshake,
            secret: sk,
            public: pk,
            key: Vec::new(),
            inbuf: Vec::new(),
        }
    }

    /// What to send before reading anything: the server opens with its public
    /// key as a frame; the client sends nothing until the server's key
    /// arrives.
    pub fn initial_send(&self) -> (r: Option<Vec<u8>>)
        requires
            self.wf(),
        ensures
            self.role_spec() == Role::Server ==> (r matches Some(f) && f@ == frame_of(
                pubkey_of(self.secret_view()),
            )),
            self.role_spec() == Role::Client ==> r is None,
    {
        match self.role {
            Role::Server => Some(encode_frame(&self.public)),
            Role::Client => None,
        }
    }

    /// Feed bytes received from the transport into the reassembly buffer.
    /// Nothing else about the session changes.
    pub fn push_bytes(&mut self, data: &Vec<u8>)
        ensures
            final(self).buffered() == old(self).buffered() + data@,
            final(self).role_spec() == old(self).role_spec(),
            final(self).phase_spec() == old(self).phase_spec(),
            final(self).secret_view() == old(self).secret_view(),
            final(self).public_view() == old(self).public_view(),
            final(self).key_view() == old(self).key_view(),
    {
        let ghost start = self.inbuf@;
        let mut i: usize = 0;
        while i < data.len()
            invariant
                i <= data@.len(),
                self.inbuf@ == start + data@.take(i as int),
                self.role == old(self).role,
                self.phase == old(self).phase,
                self.secret@ == old(self).secret@,
                self.public@ == old(self).public@,
                self.key@ == old(self).key@,
            decreases data@.len() - i,
        {
            self.inbuf.push(data[i]);
            i += 1;
            assert(data@.take(i as int) == data@.take(i - 1 as int).push(data@[i - 1]));
        }
        assert(start + data@.take(data@.len() as int) =~= start + data@);
    }

    /// Drive the session one step on what has been received so far.
    ///
    /// With no complete frame buffered nothing happens. A complete frame is
    /// consumed and acted on by phase: during the handshake it must be a
    /// 32-byte peer public key — the session key is derived from it and, for
    /// a client, the reply frame carrying our own public key is handed back;
    /// any other length closes the session with `InvalidKeyLength`. Once
    /// established, a frame is an encrypted message — it is decrypted and
    /// handed back, and a malformed or unauthentic one closes the session
    /// with its error.
    ///
    /// When the peer's key is the public key of some scalar, the derived
    /// session key equals the one that peer derives from our public key: the
    /// handshake agreement.
    pub fn poll(&mut self) -> (r: Result<Option<SessionEvent>, ChatError>)
        requires
            old(self).wf(),
        ensures
            final(self).wf(),
            final(self).role_spec() == old(self).role_spec(),
            final(self).secret_view() == old(self).secret_view(),
            final(self).public_view() == old(self).public_view(),
            old(self).phase_spec() == Phase::Closed ==> (r == Ok::<
                Option<SessionEvent>,
                ChatError,
            >(None) && *final(self) == *old(self)),
            old(self).phase_spec() != Phase::Closed && parse_frame(old(self).buffered()) is None
                ==> (r == Ok::<Option<SessionEvent>, ChatError>(None) && *final(self) == *old(self)),
            old(self).phase_spec() != Phase::Closed ==> (parse_frame(old(self).buffered()) matches
                Some((payload, used)) ==> {
                &&& final(self).buffered() == old(self).buffered().skip(used)
                &&& (old(self).phase_spec() == Phase::Handshake && payload.len() != 32 ==> (r
                    == Err::<Option<SessionEvent>, ChatError>(ChatError::InvalidKeyLength) && final(self).phase_spec() == Phase::Closed))
                &&& (old(self).phase_spec() == Phase::Handshake && payload.len() == 32 ==> {
                    &&& final(self).phase_spec() == Phase::Established
                    &&& final(self).key_view() == Self::session_key_of(
                        old(self).secret_view(),
                        payload,
                    )
                    &&& forall|other: Seq<u8>|
                        payload == #[trigger] pubkey_of(other) ==> final(self).key_view()
                            == Self::session_key_of(other, old(self).public_view())
                    &&& (old(self).role_spec() == Role::Client ==> (r matches Ok(
                        Some(SessionEvent::Handshaked(Some(f))),
                    ) && f@ == frame_of(old(self).public_view())))
                    &&& (old(self).role_spec() == Role::Server ==> r == Ok::<
                        Option<SessionEvent>,
                        ChatError,
                    >(Some(SessionEvent::Handshaked(None))))
                })
                &&& (old(self).phase_spec() == Phase::Established ==> {
                    &&& final(self).key_view() == old(self).key_view()
                    &&& (decrypt_spec(old(self).key_view(), payload) matches Ok(p) ==> (r matches
                        Ok(Some(SessionEvent::Message(m))) && (m@ == p && final(self).phase_spec()
                        == Phase::Established)))
                    &&& (decrypt_spec(old(self).key_view(), payload) matches Err(e) ==> (r
                        == Err::<Option<SessionEvent>, ChatError>(e) && final(self).phase_spec()
                        == Phase::Closed))
                })
            }),
    {
        if self.phase == Phase::Closed {
            return Ok(None);
        }
        let decoded = decode_frame(&self.inbuf);
        match decoded {
            None => Ok(None),
            Some((payload, used)) => {
                let rest = copy_range(&self.inbuf, used, self.inbuf.len());
                assert(rest@ =~= self.inbuf@.skip(used as int));
                self.inbuf = rest;
                if self.phase == Phase::Handshake {
                    if payload.len() != 32 {
                        self.phase = Phase::Closed;
                        return Err(ChatError::InvalidKeyLength);
                    }
                    let shared = shared_secret_bytes(&self.secret, &payload);
                    let key = derive_key_from_shared(&shared);
                    self.key = key;
                    self.phase = Phase::Established;
                    let reply = match self.role {
                        Role::Client => Some(encode_frame(&self.public)),
                        Role::Server => None,
                    };
                    Ok(Some(SessionEvent::Handshaked(reply)))
                } else {
                    let cipher = aead_from_key(&self.key);
                    match decrypt_message(&cipher, &payload) {
                        Ok(pt) => Ok(Some(SessionEvent::Message(pt))),
                        Err(e) => {
                            self.phase = Phase::Closed;
                            Err(e)
                        },
                    }
                }
            },
        }
    }

    /// Handle one line of input while established: skip a blank line, close
    /// cleanly on the quit signal, and otherwise hand back the frame that
    /// carries the line encrypted under the session key — a frame whose
    /// payload decrypts back to exactly the line.
    pub fn submit_line(&mut self, line: &Vec<u8>) -> (r: SendStep)
        requires
            old(self).wf(),
            old(self).phase_spec() == Phase::Established,
            line@.len() <= 0xFFFF_F000,
        ensures
            final(self).wf(),
            final(self).role_spec() == old(self).role_spec(),
            final(self).secret_view() == old(self).secret_view(),
            final(self).public_view() == old(self).public_view(),
            final(self).key_view() == old(self).key_view(),
            final(self).buffered() == old(self).buffered(),
            line_blank(line@) ==> (r == SendStep::Skip && *final(self) == *old(self)),
            !line_blank(line@) && line_quit(line@) ==> (r == SendStep::Quit && final(self).phase_spec() == Phase::Closed),
            !line_blank(line@) && !line_quit(line@) ==> (r matches SendStep::Frame(f) && (final(self).phase_spec() == Phase::Established && (parse_frame(f@) matches Some((msg, used))
                && (used == f@.len() && decrypt_spec(old(self).key_view(), msg) == Ok::<
                Seq<u8>,
                ChatError,
            >(line@))))),
    {
        match classify_line(line) {
            LineClass::Blank => SendStep::Skip,
            LineClass::Quit => {
                self.phase = Phase::Closed;
                SendStep::Quit
            },
            LineClass::Message => {
                let cipher = aead_from_key(&self.key);
                let sealed = encrypt_message(&cipher, line);
                let framed = encode_frame(&sealed);
                proof {
                    lemma_frame_round_trip(sealed@, Seq::<u8>::empty());
                    assert(frame_of(sealed@) + Seq::<u8>::empty() =~= frame_of(sealed@));
                }
                SendStep::Frame(framed)
            },
        }
    }

    /// The transport closed. Only an empty reassembly buffer is a clean
    /// close: leftover bytes are a short read — a partial frame that will
    /// never complete — and count as an I/O error, never as data.
    pub fn on_close(&mut self) -> (r: Result<(), ChatError>)
        requires
            old(self).wf(),
        ensures
            final(self).wf(),
            final(self).phase_spec() == Phase::Closed,
            final(self).buffered() == old(self).buffered(),
            old(self).buffered().len() == 0 ==> r is Ok,
            old(self).buffered().len() != 0 ==> r == Err::<(), ChatError>(ChatError::IOError),
    {
        self.phase = Phase::Closed;
        if self.inbuf.len() == 0 {
            Ok(())
        } else {
            Err(ChatError::IOError)
        }
    }

    /// Whether the handshake has completed and messages can flow.
    pub fn is_established(&self) -> (r: bool)
        ensures
            r == (self.phase_spec() == Phase::Established),
    {
        self.phase == Phase::Established
    }

    /// Whether the session has ended.
    pub fn is_closed(&self) -> (r: bool)
        ensures
            r == (self.phase_spec() == Phase::Closed),
    {
        self.phase == Phase::Closed
    }

    /// Our own public key, to show or to compare out of band.
    pub fn public_key(&self) -> (r: Vec<u8>)
        ensures
            r@ == self.public_view(),
    {
        let r = copy_range(&self.public, 0, self.public.len());
        assert(r@ =~= self.public@);
        r
    }
}

} // verus!
