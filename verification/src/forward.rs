use vstd::prelude::*;
use vstd::string::StringSliceAdditionalSpecFns;

use crate::packets::{
    connect_reencoding, decode_connect, decoded_connect, fits_field, is_connect_packet_type,
    reencode_connect, updated, ConnectView,
};

verus! {

/// Why forwarding from the client to the broker stopped.
#[derive(Debug, Clone, Copy, PartialEq, Eq)]
pub enum ForwardError {
    /// The client's first packet is announced as a CONNECT but cannot be
    /// decoded.
    MalformedConnect,
    /// The identity does not fit a CONNECT string field.
    IdentityTooLong,
    /// The broker accepted no byte of a write.
    WriteZero,
}

/// How many bytes one read from the client may deliver.
pub const READ_BUFFER_SIZE: usize = 2048;

/// The remaining-length field of an MQTT fixed header, read from byte `1 + j`
/// of `s` on, with `acc` the value so far and `mult` the weight of the next
/// byte: `None` where it runs past four bytes, `Some(None)` where `s` ends
/// before it does, else the header's length and the remaining length.
pub open spec fn remaining_length_from(s: Seq<u8>, j: int, acc: int, mult: int) -> Option<
    Option<(int, int)>,
>
    decreases 4 - j,
{
    if j >= 4 {
        None
    } else if s.len() <= 1 + j {
        Some(None)
    } else {
        let b = s[1 + j] as int;
        if b < 128 {
            Some(Some((2 + j, acc + b * mult)))
        } else {
            remaining_length_from(s, j + 1, acc + (b - 128) * mult, mult * 128)
        }
    }
}

/// The length of the packet at the front of `s`: `None` where its header is
/// malformed, `Some(None)` where `s` ends inside the header.
pub open spec fn packet_length(s: Seq<u8>) -> Option<Option<int>> {
    match remaining_length_from(s, 0, 0, 1) {
        None => None,
        Some(None) => Some(None),
        Some(Some((h, r))) => Some(Some(h + r)),
    }
}

/// The user name to set: the identity where so configured, else none.
pub open spec fn user_name_arg(identity: Seq<char>, as_username: bool) -> Option<Option<Seq<char>>> {
    if as_username {
        Some(Some(identity))
    } else {
        None
    }
}

/// The client identifier to set: the identity where so configured, else none.
pub open spec fn client_id_arg(identity: Seq<char>, as_client_id: bool) -> Option<Seq<char>> {
    if as_client_id {
        Some(identity)
    } else {
        None
    }
}

/// The CONNECT fields `f` with the identity as user name and/or client
/// identifier, as configured; every other field kept.
pub open spec fn with_identity(f: ConnectView, identity: Seq<char>, as_username: bool, as_client_id: bool) -> ConnectView {
    updated(f, user_name_arg(identity, as_username), client_id_arg(identity, as_client_id))
}

/// Whether the identity fits where it is to be written.
pub open spec fn identity_fits(identity: Seq<char>, as_username: bool, as_client_id: bool) -> bool {
    (as_username || as_client_id) ==> fits_field(identity)
}

/// The rewriting of one CONNECT packet: decoded, given the identity as
/// configured, encoded again.
pub open spec fn rewritten(packet: Seq<u8>, identity: Seq<char>, as_username: bool, as_client_id: bool) -> Result<
    Seq<u8>,
    ForwardError,
> {
    match decoded_connect(packet) {
        None => Err(ForwardError::MalformedConnect),
        Some(f) => if !identity_fits(identity, as_username, as_client_id) {
            Err(ForwardError::IdentityTooLong)
        } else {
            Ok(
                connect_reencoding(
                    packet,
                    user_name_arg(identity, as_username),
                    client_id_arg(identity, as_client_id),
                ),
            )
        },
    }
}

/// What is to be sent to the broker for the client bytes `input`, `done`
/// telling whether the client has closed its side: a stream whose first
/// packet is a CONNECT goes on with that packet rewritten and every later byte
/// unchanged, once the packet is complete; any other stream goes on
/// unchanged. A stream that ends inside its first CONNECT goes on unchanged.
pub open spec fn forwarded(
    input: Seq<u8>,
    done: bool,
    identity: Seq<char>,
    as_username: bool,
    as_client_id: bool,
) -> Result<Seq<u8>, ForwardError> {
    if input.len() == 0 {
        Ok(Seq::<u8>::empty())
    } else if input[0] != 0x10 {
        Ok(input)
    } else {
        match packet_length(input) {
            None => Err(ForwardError::MalformedConnect),
            Some(None) => if done {
                Ok(input)
            } else {
                Ok(Seq::<u8>::empty())
            },
            Some(Some(n)) => if input.len() < n {
                if done {
                    Ok(input)
                } else {
                    Ok(Seq::<u8>::empty())
                }
            } else {
                match rewritten(input.take(n), identity, as_username, as_client_id) {
                    Err(e) => Err(e),
                    Ok(p) => Ok(p + input.skip(n)),
                }
            },
        }
    }
}

/// Whether `input` is empty or ends inside a first packet that is a CONNECT.
pub open spec fn awaiting_first_packet(input: Seq<u8>) -> bool {
    input.len() == 0 || (input[0] == 0x10 && (packet_length(input) matches Some(p) && (p matches Some(
        n,
    ) ==> n > input.len())))
}

/// Whether the first packet of `input` has been settled: it is not a
/// CONNECT, or it is complete.
pub open spec fn first_packet_settled(input: Seq<u8>) -> bool {
    input.len() > 0 && (input[0] != 0x10 || (packet_length(input) matches Some(Some(n)) && n
        <= input.len()))
}

/// Whether the broker, decoding the rewritten first packet of `input`, reads
/// back the client's CONNECT fields with the identity in place: this is
/// asked of a stream whose first packet is a complete CONNECT that could be
/// rewritten.
pub open spec fn reads_back(
    input: Seq<u8>,
    identity: Seq<char>,
    as_username: bool,
    as_client_id: bool,
) -> bool {
    (input.len() > 0 && input[0] == 0x10) ==> match packet_length(input) {
        Some(Some(n)) => n <= input.len() ==> match rewritten(
            input.take(n),
            identity,
            as_username,
            as_client_id,
        ) {
            Ok(p) => decoded_connect(p) == Some(
                with_identity(
                    decoded_connect(input.take(n)).unwrap(),
                    identity,
                    as_username,
                    as_client_id,
                ),
            ),
            Err(_) => true,
        },
        _ => true,
    }
}

proof fn lemma_remaining_length_bounds(s: Seq<u8>, j: int, acc: int, mult: int)
    requires
        0 <= j,
        acc >= 0,
        mult >= 1,
    ensures
        remaining_length_from(s, j, acc, mult) matches Some(Some((h, r))) ==> h >= 2 && r >= 0,
    decreases 4 - j,
{
    if j < 4 && s.len() > 1 + j {
        let b = s[1 + j] as int;
        if b >= 128 {
            assert((b - 128) * mult >= 0) by (nonlinear_arith)
                requires
                    b >= 128,
                    mult >= 1,
            ;
            assert(mult * 128 >= 1) by (nonlinear_arith)
                requires
                    mult >= 1,
            ;
            lemma_remaining_length_bounds(s, j + 1, acc + (b - 128) * mult, mult * 128);
        } else {
            assert(b * mult >= 0) by (nonlinear_arith)
                requires
                    b >= 0,
                    mult >= 1,
            ;
        }
    }
}

/// The length of a packet is at least its two-byte minimum header.
pub proof fn packet_length_at_least_two(s: Seq<u8>)
    ensures
        packet_length(s) matches Some(Some(n)) ==> n >= 2,
{
    lemma_remaining_length_bounds(s, 0, 0, 1);
}

proof fn lemma_remaining_length_prefix(s: Seq<u8>, d: Seq<u8>, j: int, acc: int, mult: int)
    requires
        0 <= j,
        remaining_length_from(s, j, acc, mult) != Some(None::<(int, int)>),
    ensures
        remaining_length_from(s + d, j, acc, mult) == remaining_length_from(s, j, acc, mult),
    decreases 4 - j,
{
    if j < 4 {
        assert((s + d)[1 + j] == s[1 + j]);
        let b = s[1 + j] as int;
        if b >= 128 {
            lemma_remaining_length_prefix(s, d, j + 1, acc + (b - 128) * mult, mult * 128);
        }
    }
}

/// Every identity whose UTF-8 encoding fits a CONNECT string field, 65535
/// bytes, is written in: rewriting a packet that decodes as a CONNECT fails
/// exactly when an identity to be written is longer than that.
pub proof fn fitting_identity_is_accepted(
    packet: Seq<u8>,
    identity: Seq<char>,
    as_username: bool,
    as_client_id: bool,
)
    requires
        decoded_connect(packet) is Some,
    ensures
        rewritten(packet, identity, as_username, as_client_id) is Ok <==> ((as_username
            || as_client_id) ==> vstd::utf8::encode_utf8(identity).len() <= 65535),
        !(rewritten(packet, identity, as_username, as_client_id) is Ok) ==> rewritten(
            packet,
            identity,
            as_username,
            as_client_id,
        ) == Err::<Seq<u8>, ForwardError>(ForwardError::IdentityTooLong),
{
}

/// Once the first packet of a stream is settled, later client bytes are
/// sent on unchanged after what was already due, and the end of the stream
/// changes nothing.
pub proof fn later_bytes_follow_unchanged(
    input: Seq<u8>,
    data: Seq<u8>,
    done: bool,
    identity: Seq<char>,
    as_username: bool,
    as_client_id: bool,
)
    requires
        first_packet_settled(input),
        forwarded(input, false, identity, as_username, as_client_id) is Ok,
    ensures
        forwarded(input + data, done, identity, as_username, as_client_id) == Ok::<
            Seq<u8>,
            ForwardError,
        >(forwarded(input, false, identity, as_username, as_client_id).unwrap() + data),
{
    let t = input + data;
    assert(t[0] == input[0]);
    if input[0] != 0x10 {
    } else {
        lemma_remaining_length_prefix(input, data, 0, 0, 1);
        packet_length_at_least_two(input);
        let n = packet_length(input)->Some_0->Some_0;
        assert(0 <= n <= input.len());
        assert(t.take(n) =~= input.take(n));
        assert(t.skip(n) =~= input.skip(n) + data);
        let p = rewritten(input.take(n), identity, as_username, as_client_id).unwrap();
        assert(p + t.skip(n) =~= (p + input.skip(n)) + data);
    }
}

/// A stream that does not begin with a CONNECT reaches the broker unchanged.
pub proof fn other_streams_pass_unchanged(
    input: Seq<u8>,
    done: bool,
    identity: Seq<char>,
    as_username: bool,
    as_client_id: bool,
)
    requires
        input.len() == 0 || input[0] != 0x10,
    ensures
        forwarded(input, done, identity, as_username, as_client_id) == Ok::<Seq<u8>, ForwardError>(
            input,
        ),
{
    if input.len() == 0 {
        assert(input =~= Seq::<u8>::empty());
    }
}

/// The rewritten CONNECT carries the identity as user name when so
/// configured, and as client identifier when so configured; every other
/// field is the client's.
pub proof fn identity_goes_where_configured(
    f: ConnectView,
    identity: Seq<char>,
    as_username: bool,
    as_client_id: bool,
)
    ensures
        with_identity(f, identity, as_username, as_client_id).user_name == (if as_username {
            Some(identity)
        } else {
            f.user_name
        }),
        with_identity(f, identity, as_username, as_client_id).client_identifier == (
        if as_client_id {
            identity
        } else {
            f.client_identifier
        }),
        with_identity(f, identity, as_username, as_client_id).password == f.password,
        with_identity(f, identity, as_username, as_client_id).will == f.will,
        with_identity(f, identity, as_username, as_client_id).protocol_name == f.protocol_name,
        with_identity(f, identity, as_username, as_client_id).keep_alive == f.keep_alive,
{
}

fn append(v: &mut Vec<u8>, d: &[u8])
    ensures
        final(v)@ == old(v)@ + d@,
{
    let mut i: usize = 0;
    while i < d.len()
        invariant
            i <= d@.len(),
            v@ == old(v)@ + d@.take(i as int),
        decreases d@.len() - i,
    {
        v.push(d[i]);
        i = i + 1;
        assert(v@ =~= old(v)@ + d@.take(i as int));
    }
    assert(d@.take(d@.len() as int) =~= d@);
}

fn subrange(v: &Vec<u8>, from: usize, to: usize) -> (r: Vec<u8>)
    requires
        from <= to <= v@.len(),
    ensures
        r@ == v@.subrange(from as int, to as int),
{
    let mut r: Vec<u8> = Vec::new();
    let mut i = from;
    while i < to
        invariant
            from <= i <= to,
            to <= v@.len(),
            r@ == v@.subrange(from as int, i as int),
        decreases to - i,
    {
        r.push(v[i]);
        i = i + 1;
        assert(r@ =~= v@.subrange(from as int, i as int));
    }
    r
}

/// The length of the packet at the front of `s` (see [`packet_length`]).
pub fn frame_length(s: &Vec<u8>) -> (r: Option<Option<usize>>)
    ensures
        match packet_length(s@) {
            None => r is None,
            Some(None) => r == Some(None::<usize>),
            Some(Some(n)) => r matches Some(Some(m)) && m == n,
        },
{
    let mut j: usize = 0;
    let mut acc: usize = 0;
    let mut mult: usize = 1;
    while j < 4
        invariant
            j <= 4,
            mult == (if j == 0 {
                1usize
            } else if j == 1 {
                128usize
            } else if j == 2 {
                16384usize
            } else if j == 3 {
                2097152usize
            } else {
                268435456usize
            }),
            acc < mult,
            remaining_length_from(s@, 0, 0, 1) == remaining_length_from(
                s@,
                j as int,
                acc as int,
                mult as int,
            ),
        decreases 4 - j,
    {
        if s.len() <= 1 + j {
            return Some(None);
        }
        let b = s[1 + j];
        if b < 128 {
            assert(acc + b * mult < 268435456) by (nonlinear_arith)
                requires
                    acc < mult,
                    b < 128,
                    mult <= 2097152,
            ;
            let n = 2 + j + acc + (b as usize) * mult;
            return Some(Some(n));
        }
        assert(acc + (b - 128) * mult < mult * 128) by (nonlinear_arith)
            requires
                acc < mult,
                128 <= b < 256,
        ;
        acc = acc + ((b - 128) as usize) * mult;
        mult = mult * 128;
        j = j + 1;
    }
    None
}

/// Re-encodes the CONNECT packet `packet` with the client's certificate
/// identity as user name and/or client identifier (see [`rewritten`]). The
/// broker reads back the client's fields with the identity in place.
pub fn rewrite_connect(packet: &[u8], identity: &String, as_username: bool, as_client_id: bool) -> (r:
    Result<Vec<u8>, ForwardError>)
    ensures
        match rewritten(packet@, identity@, as_username, as_client_id) {
            Ok(v) => r matches Ok(w) && w@ == v,
            Err(e) => r == Err::<Vec<u8>, ForwardError>(e),
        },
        r matches Ok(w) ==> w@.len() >= 2 && decoded_connect(w@) == Some(
            with_identity(decoded_connect(packet@).unwrap(), identity@, as_username, as_client_id),
        ),
{
    match decode_connect(packet) {
        Some(_) => {},
        None => {
            return Err(ForwardError::MalformedConnect);
        },
    }
    let id_str = identity.as_str();
    let id_bytes = id_str.as_bytes();
    let id_len = id_bytes.len();
    if (as_username || as_client_id) && id_len > 65535 {
        return Err(ForwardError::IdentityTooLong);
    }
    assert(id_len == id_str.spec_bytes().len());
    assert(id_len == vstd::utf8::encode_utf8(identity@).len());
    let user_name = if as_username {
        Some(Some(identity.clone()))
    } else {
        None
    };
    let client_identifier = if as_client_id {
        Some(identity.clone())
    } else {
        None
    };
    Ok(reencode_connect(packet, user_name, client_identifier))
}

/// What the proxy does next on the client-to-broker side.
#[derive(Debug, Clone, Copy, PartialEq, Eq)]
pub enum ForwardStep {
    /// Read from the client and hand the bytes to `on_read`.
    Read,
    /// Write `pending()` to the broker and hand the count to `on_written`.
    Write,
    /// Flush the broker side and shut its write half.
    Finish,
}

/// The client-to-broker half of a proxied connection: it gathers the
/// client's first packet until it is complete, rewrites it where it is a
/// CONNECT, and sends everything else on as it comes.
pub struct Forwarder {
    head: Vec<u8>,
    pending: Vec<u8>,
    started: bool,
    read_done: bool,
    failed: bool,
    identity: String,
    as_username: bool,
    as_client_id: bool,
    input: Ghost<Seq<u8>>,
    sent: Ghost<Seq<u8>>,
}

impl Forwarder {
    /// Every byte read from the client so far.
    pub closed spec fn input(&self) -> Seq<u8> {
        self.input@
    }

    /// Every byte reported as sent to the broker so far.
    pub closed spec fn sent(&self) -> Seq<u8> {
        self.sent@
    }

    /// The bytes due to the broker and not yet sent.
    pub closed spec fn pending_view(&self) -> Seq<u8> {
        self.pending@
    }

    /// Whether the client has closed its side.
    pub closed spec fn read_done(&self) -> bool {
        self.read_done
    }

    /// Whether forwarding has failed.
    pub closed spec fn failed(&self) -> bool {
        self.failed
    }

    /// The identity written into the CONNECT packet.
    pub closed spec fn identity(&self) -> Seq<char> {
        self.identity@
    }

    /// Whether the identity replaces the user name.
    pub closed spec fn as_username(&self) -> bool {
        self.as_username
    }

    /// Whether the identity replaces the client identifier.
    pub closed spec fn as_client_id(&self) -> bool {
        self.as_client_id
    }

    /// What is due to the broker for the bytes read so far.
    pub open spec fn due(&self) -> Result<Seq<u8>, ForwardError> {
        forwarded(
            self.input(),
            self.read_done(),
            self.identity(),
            self.as_username(),
            self.as_client_id(),
        )
    }

    /// The forwarder's internal consistency: what was sent and what is
    /// pending together are what is due.
    pub closed spec fn wf(&self) -> bool {
        !self.failed ==> {
            &&& self.due() == Ok::<Seq<u8>, ForwardError>(self.sent@ + self.pending@)
            &&& reads_back(self.input@, self.identity@, self.as_username, self.as_client_id)
            &&& !self.started ==> {
                &&& self.head@ == self.input@
                &&& awaiting_first_packet(self.input@)
                &&& self.pending@.len() == 0
                &&& self.sent@.len() == 0
                &&& !self.read_done
            }
            &&& self.started ==> self.head@.len() == 0 && (self.read_done || first_packet_settled(
                self.input@,
            ))
        }
    }

    /// `a` and `b` rewrite in the same way.
    pub open spec fn same_settings(a: &Forwarder, b: &Forwarder) -> bool {
        &&& a.identity() == b.identity()
        &&& a.as_username() == b.as_username()
        &&& a.as_client_id() == b.as_client_id()
    }

    /// A forwarder that has read and sent nothing.
    pub fn new(identity: String, as_username: bool, as_client_id: bool) -> (r: Forwarder)
        ensures
            r.wf(),
            r.input() == Seq::<u8>::empty(),
            r.sent() == Seq::<u8>::empty(),
            r.pending_view() == Seq::<u8>::empty(),
            !r.read_done(),
            !r.failed(),
            r.identity() == identity@,
            r.as_username() == as_username,
            r.as_client_id() == as_client_id,
    {
        let r = Forwarder {
            head: Vec::new(),
            pending: Vec::new(),
            started: false,
            read_done: false,
            failed: false,
            identity,
            as_username,
            as_client_id,
            input: Ghost(Seq::<u8>::empty()),
            sent: Ghost(Seq::<u8>::empty()),
        };
        assert(r.sent@ + r.pending@ =~= Seq::<u8>::empty());
        r
    }

    /// How many bytes one read may deliver.
    pub fn read_capacity(&self) -> (r: usize)
        ensures
            r == READ_BUFFER_SIZE,
    {
        READ_BUFFER_SIZE
    }

    /// What to do next: send what is pending, else read while the client is
    /// open, else finish.
    pub fn next_step(&self) -> (r: ForwardStep)
        ensures
            self.pending_view().len() > 0 ==> r == ForwardStep::Write,
            self.pending_view().len() == 0 && !self.read_done() ==> r == ForwardStep::Read,
            self.pending_view().len() == 0 && self.read_done() ==> r == ForwardStep::Finish,
    {
        if self.pending.len() > 0 {
            ForwardStep::Write
        } else if !self.read_done {
            ForwardStep::Read
        } else {
            ForwardStep::Finish
        }
    }

    /// Takes in the bytes of one read from the client; an empty read means the
    /// client closed its side. Fails where the client's first packet is a
    /// CONNECT that cannot be rewritten.
    pub fn on_read(&mut self, data: &[u8]) -> (r: Result<(), ForwardError>)
        requires
            old(self).wf(),
            !old(self).failed(),
            !old(self).read_done(),
        ensures
            final(self).wf(),
            Forwarder::same_settings(final(self), old(self)),
            final(self).input() == old(self).input() + data@,
            final(self).read_done() == (data@.len() == 0),
            match final(self).due() {
                Ok(out) => {
                    &&& r is Ok
                    &&& !final(self).failed()
                    &&& final(self).sent() == old(self).sent()
                    &&& final(self).sent() + final(self).pending_view() == out
                    &&& reads_back(
                        final(self).input(),
                        final(self).identity(),
                        final(self).as_username(),
                        final(self).as_client_id(),
                    )
                },
                Err(e) => r == Err::<(), ForwardError>(e) && final(self).failed(),
            },
    {
        self.input = Ghost(self.input@ + data@);
        if data.len() == 0 {
            self.read_done = true;
        }
        if self.started {
            proof {
                later_bytes_follow_unchanged(
                    old(self).input@,
                    data@,
                    self.read_done,
                    self.identity@,
                    self.as_username,
                    self.as_client_id,
                );
            }
            append(&mut self.pending, data);
            assert(self.sent@ + self.pending@ =~= (old(self).sent@ + old(self).pending@) + data@);
            assert(self.input@ == old(self).input@ + data@);
            proof {
                if data@.len() > 0 {
                    let t = self.input@;
                    assert(t[0] == old(self).input@[0]);
                    if t[0] == 0x10 {
                        lemma_remaining_length_prefix(old(self).input@, data@, 0, 0, 1);
                        assert(first_packet_settled(old(self).input@));
                        packet_length_at_least_two(old(self).input@);
                        let n = packet_length(old(self).input@)->Some_0->Some_0;
                        assert(0 <= n <= old(self).input@.len());
                        assert(t.take(n) =~= old(self).input@.take(n));
                    }
                }
            }
            return Ok(());
        }
        append(&mut self.head, data);
        assert(self.head@ == self.input@);
        if data.len() == 0 || !is_connect_packet_type(self.head[0]) {
            proof {
                if self.input@.len() == 0 {
                    assert(self.input@ =~= Seq::<u8>::empty());
                }
            }
            self.release();
            return Ok(());
        }
        match frame_length(&self.head) {
            None => {
                self.failed = true;
                Err(ForwardError::MalformedConnect)
            },
            Some(None) => {
                assert(self.sent@ + self.pending@ =~= Seq::<u8>::empty());
                Ok(())
            },
            Some(Some(n)) => {
                if self.head.len() < n {
                    assert(self.sent@ + self.pending@ =~= Seq::<u8>::empty());
                    return Ok(());
                }
                let packet = subrange(&self.head, 0, n);
                let rest = subrange(&self.head, n, self.head.len());
                assert(packet@ =~= self.input@.take(n as int));
                assert(rest@ =~= self.input@.skip(n as int));
                match rewrite_connect(packet.as_slice(), &self.identity, self.as_username, self.as_client_id) {
                    Err(e) => {
                        self.failed = true;
                        Err(e)
                    },
                    Ok(v) => {
                        let mut out = v;
                        append(&mut out, rest.as_slice());
                        self.pending = out;
                        self.head = Vec::new();
                        self.started = true;
                        assert(self.sent@ + self.pending@ =~= self.pending@);
                        Ok(())
                    },
                }
            },
        }
    }

    /// Sends the gathered head on unchanged.
    fn release(&mut self)
        requires
            !old(self).started,
            !old(self).failed,
            old(self).sent@.len() == 0,
            old(self).pending@.len() == 0,
            old(self).head@ == old(self).input@,
            forwarded(
                old(self).input@,
                old(self).read_done,
                old(self).identity@,
                old(self).as_username,
                old(self).as_client_id,
            ) == Ok::<Seq<u8>, ForwardError>(old(self).input@),
            old(self).read_done || first_packet_settled(old(self).input@),
            reads_back(old(self).input@, old(self).identity@, old(self).as_username, old(self).as_client_id),
        ensures
            final(self).started,
            final(self).head@.len() == 0,
            final(self).pending@ == old(self).input@,
            final(self).sent@ == old(self).sent@,
            final(self).input@ == old(self).input@,
            final(self).read_done == old(self).read_done,
            final(self).failed == old(self).failed,
            final(self).identity == old(self).identity,
            final(self).as_username == old(self).as_username,
            final(self).as_client_id == old(self).as_client_id,
            final(self).wf(),
    {
        let mut h: Vec<u8> = Vec::new();
        std::mem::swap(&mut h, &mut self.head);
        self.pending = h;
        self.started = true;
        assert(self.sent@ + self.pending@ =~= self.pending@);
    }

    /// Whether there are bytes to send.
    pub fn has_pending(&self) -> (r: bool)
        ensures
            r == (self.pending_view().len() > 0),
    {
        self.pending.len() > 0
    }

    /// The bytes due to the broker and not yet sent.
    pub fn pending(&self) -> (r: Vec<u8>)
        ensures
            r@ == self.pending_view(),
    {
        subrange(&self.pending, 0, self.pending.len())
    }

    /// Takes in how many of the pending bytes one write sent to the broker.
    /// A write that sent nothing ends forwarding.
    pub fn on_written(&mut self, written: usize) -> (r: Result<(), ForwardError>)
        requires
            old(self).wf(),
            !old(self).failed(),
            written <= old(self).pending_view().len(),
        ensures
            final(self).wf(),
            Forwarder::same_settings(final(self), old(self)),
            final(self).input() == old(self).input(),
            final(self).read_done() == old(self).read_done(),
            !final(self).failed(),
            written == 0 ==> {
                &&& r == Err::<(), ForwardError>(ForwardError::WriteZero)
                &&& final(self).sent() == old(self).sent()
                &&& final(self).pending_view() == old(self).pending_view()
            },
            written > 0 ==> {
                &&& r is Ok
                &&& final(self).sent() == old(self).sent() + old(self).pending_view().take(
                    written as int,
                )
                &&& final(self).pending_view() == old(self).pending_view().skip(written as int)
            },
    {
        if written == 0 {
            return Err(ForwardError::WriteZero);
        }
        let rest = subrange(&self.pending, written, self.pending.len());
        assert(rest@ =~= self.pending@.skip(written as int));
        self.sent = Ghost(self.sent@ + self.pending@.take(written as int));
        assert(self.sent@ + rest@ =~= old(self).sent@ + old(self).pending@);
        self.pending = rest;
        Ok(())
    }

    /// Whether forwarding is over: the client closed its side and everything
    /// due was sent. Then the broker has been sent exactly what the whole
    /// client stream calls for.
    pub fn is_finished(&self) -> (r: bool)
        requires
            self.wf(),
        ensures
            r == (self.read_done() && !self.failed() && self.pending_view().len() == 0),
            r ==> forwarded(
                self.input(),
                true,
                self.identity(),
                self.as_username(),
                self.as_client_id(),
            ) == Ok::<Seq<u8>, ForwardError>(self.sent()),
            r ==> reads_back(self.input(), self.identity(), self.as_username(), self.as_client_id()),
    {
        let r = self.read_done && !self.failed && self.pending.len() == 0;
        if r {
            assert(self.sent@ + self.pending@ =~= self.sent@);
        }
        r
    }
}

} // verus!
