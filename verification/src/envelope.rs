//! The tagged messages that travel over the channel, and their byte layout.
//!
//! Every envelope starts with a four-byte little-endian tag. A connection id
//! follows as eight little-endian bytes and one flag byte (0 or 1); a payload
//! as its length in eight little-endian bytes and then the bytes themselves.
//! Nothing may follow the last field.
use vstd::prelude::*;
use crate::bytes::{append, copy_range};
use crate::endian::{
    get_le, le_bytes, le_value, lemma_le_bytes_len, lemma_le_bytes_of_value,
    lemma_le_value_of_bytes, lemma_radix_pow_widths, put_le,
};
use crate::error::ServiceError;

verus! {

/// Names one logical conversation among those that share the channel.
#[derive(Clone, Copy, Debug, PartialEq, Eq, Structural, Hash)]
pub struct ConnectionId {
    /// The number the host gave the connection.
    pub id: u64,
    /// Whether the host expects answers on this connection.
    pub respondable: bool,
}

/// What the host sends to the compute unit.
#[derive(Clone, Debug, PartialEq, Eq)]
pub enum InboundEnvelope {
    /// A connection was opened.
    Connected(ConnectionId),
    /// Data for one connection.
    Input(ConnectionId, Vec<u8>),
    /// A connection was closed.
    Disconnected(ConnectionId),
    /// The whole compute unit is to stop.
    Destroy,
}

/// What the compute unit sends to the host.
#[derive(Clone, Debug, PartialEq, Eq)]
pub enum OutboundEnvelope {
    /// The compute unit has booted and takes input.
    Loaded,
    /// Data from one connection.
    Output(ConnectionId, Vec<u8>),
}

/// The mathematical value of an [`InboundEnvelope`].
pub ghost enum Inbound {
    Connected(ConnectionId),
    Input(ConnectionId, Seq<u8>),
    Disconnected(ConnectionId),
    Destroy,
}

/// The mathematical value of an [`OutboundEnvelope`].
pub ghost enum Outbound {
    Loaded,
    Output(ConnectionId, Seq<u8>),
}

impl View for InboundEnvelope {
    type V = Inbound;

    open spec fn view(&self) -> Inbound {
        match *self {
            InboundEnvelope::Connected(id) => Inbound::Connected(id),
            InboundEnvelope::Input(id, payload) => Inbound::Input(id, payload@),
            InboundEnvelope::Disconnected(id) => Inbound::Disconnected(id),
            InboundEnvelope::Destroy => Inbound::Destroy,
        }
    }
}

impl View for OutboundEnvelope {
    type V = Outbound;

    open spec fn view(&self) -> Outbound {
        match *self {
            OutboundEnvelope::Loaded => Outbound::Loaded,
            OutboundEnvelope::Output(id, payload) => Outbound::Output(id, payload@),
        }
    }
}

pub const TAG_CONNECTED: u32 = 0;

pub const TAG_INPUT: u32 = 1;

pub const TAG_DISCONNECTED: u32 = 2;

pub const TAG_DESTROY: u32 = 3;

pub const TAG_LOADED: u32 = 0;

pub const TAG_OUTPUT: u32 = 1;

/// The longest payload whose length the eight length bytes can hold.
pub open spec fn payload_fits(payload: Seq<u8>) -> bool {
    payload.len() <= u64::MAX
}

impl Inbound {
    /// The payload, if there is one, is short enough to be framed.
    pub open spec fn wf(self) -> bool {
        match self {
            Inbound::Input(_, payload) => payload_fits(payload),
            _ => true,
        }
    }
}

impl Outbound {
    /// The payload, if there is one, is short enough to be framed.
    pub open spec fn wf(self) -> bool {
        match self {
            Outbound::Output(_, payload) => payload_fits(payload),
            _ => true,
        }
    }
}

/// The nine bytes of a connection id.
pub open spec fn id_bytes(id: ConnectionId) -> Seq<u8> {
    le_bytes(id.id as nat, 8) + seq![if id.respondable { 1u8 } else { 0u8 }]
}

/// The connection id that nine bytes stand for, if any.
pub open spec fn id_parse(s: Seq<u8>) -> Option<ConnectionId> {
    if s.len() == 9 && s[8] <= 1 {
        Some(ConnectionId { id: le_value(s.subrange(0, 8)) as u64, respondable: s[8] == 1 })
    } else {
        None
    }
}

/// A payload behind its length.
pub open spec fn payload_bytes(payload: Seq<u8>) -> Seq<u8> {
    le_bytes(payload.len(), 8) + payload
}

/// The payload that a length-prefixed byte string holds, if the length is
/// that of what follows it.
pub open spec fn payload_parse(s: Seq<u8>) -> Option<Seq<u8>> {
    if s.len() >= 8 && le_value(s.subrange(0, 8)) == s.len() - 8 {
        Some(s.skip(8))
    } else {
        None
    }
}

/// The bytes of an inbound envelope.
pub open spec fn inbound_bytes(m: Inbound) -> Seq<u8> {
    match m {
        Inbound::Connected(id) => le_bytes(TAG_CONNECTED as nat, 4) + id_bytes(id),
        Inbound::Input(id, payload) => le_bytes(TAG_INPUT as nat, 4) + id_bytes(id) + payload_bytes(
            payload,
        ),
        Inbound::Disconnected(id) => le_bytes(TAG_DISCONNECTED as nat, 4) + id_bytes(id),
        Inbound::Destroy => le_bytes(TAG_DESTROY as nat, 4),
    }
}

/// The inbound envelope that a frame holds, or `None` where the frame is
/// malformed: too short, an unknown tag, a flag byte other than 0 or 1, a
/// length that is not that of the payload, or bytes after the last field.
pub open spec fn inbound_parse(raw: Seq<u8>) -> Option<Inbound> {
    if raw.len() < 4 {
        None
    } else {
        let tag = le_value(raw.subrange(0, 4));
        if tag == TAG_DESTROY as nat {
            if raw.len() == 4 {
                Some(Inbound::Destroy)
            } else {
                None
            }
        } else if raw.len() < 13 {
            None
        } else {
            match id_parse(raw.subrange(4, 13)) {
                None => None,
                Some(id) => if tag == TAG_CONNECTED as nat {
                    if raw.len() == 13 {
                        Some(Inbound::Connected(id))
                    } else {
                        None
                    }
                } else if tag == TAG_DISCONNECTED as nat {
                    if raw.len() == 13 {
                        Some(Inbound::Disconnected(id))
                    } else {
                        None
                    }
                } else if tag == TAG_INPUT as nat {
                    match payload_parse(raw.skip(13)) {
                        Some(payload) => Some(Inbound::Input(id, payload)),
                        None => None,
                    }
                } else {
                    None
                },
            }
        }
    }
}

/// The bytes of an outbound envelope.
pub open spec fn outbound_bytes(m: Outbound) -> Seq<u8> {
    match m {
        Outbound::Loaded => le_bytes(TAG_LOADED as nat, 4),
        Outbound::Output(id, payload) => le_bytes(TAG_OUTPUT as nat, 4) + id_bytes(id) + payload_bytes(
            payload,
        ),
    }
}

/// The outbound envelope that a byte string holds, or `None` where it is
/// malformed.
pub open spec fn outbound_parse(raw: Seq<u8>) -> Option<Outbound> {
    if raw.len() < 4 {
        None
    } else {
        let tag = le_value(raw.subrange(0, 4));
        if tag == TAG_LOADED as nat {
            if raw.len() == 4 {
                Some(Outbound::Loaded)
            } else {
                None
            }
        } else if tag == TAG_OUTPUT as nat && raw.len() >= 13 {
            match id_parse(raw.subrange(4, 13)) {
                None => None,
                Some(id) => match payload_parse(raw.skip(13)) {
                    Some(payload) => Some(Outbound::Output(id, payload)),
                    None => None,
                },
            }
        } else {
            None
        }
    }
}

/// A connection id is read back from its nine bytes.
pub proof fn lemma_id_round_trip(id: ConnectionId)
    ensures
        id_bytes(id).len() == 9,
        id_parse(id_bytes(id)) == Some(id),
{
    let s = id_bytes(id);
    lemma_le_bytes_len(id.id as nat, 8);
    lemma_radix_pow_widths();
    lemma_le_value_of_bytes(id.id as nat, 8);
    assert(s.subrange(0, 8) =~= le_bytes(id.id as nat, 8));
}

/// Nine bytes that stand for a connection id are the bytes of that id.
pub proof fn lemma_id_canonical(s: Seq<u8>)
    requires
        id_parse(s) is Some,
    ensures
        id_bytes(id_parse(s).unwrap()) == s,
{
    let head = s.subrange(0, 8);
    lemma_le_bytes_of_value(head);
    lemma_radix_pow_widths();
    assert(id_bytes(id_parse(s).unwrap()) =~= s);
}

/// A payload that fits is read back from behind its length.
pub proof fn lemma_payload_round_trip(payload: Seq<u8>)
    requires
        payload_fits(payload),
    ensures
        payload_bytes(payload).len() == 8 + payload.len(),
        payload_parse(payload_bytes(payload)) == Some(payload),
{
    let s = payload_bytes(payload);
    lemma_le_bytes_len(payload.len(), 8);
    lemma_radix_pow_widths();
    lemma_le_value_of_bytes(payload.len(), 8);
    assert(s.subrange(0, 8) =~= le_bytes(payload.len(), 8));
    assert(s.skip(8) =~= payload);
}

/// A byte string that holds a payload is that payload behind its length.
pub proof fn lemma_payload_canonical(s: Seq<u8>)
    requires
        payload_parse(s) is Some,
    ensures
        payload_bytes(payload_parse(s).unwrap()) == s,
        payload_fits(payload_parse(s).unwrap()),
{
    let head = s.subrange(0, 8);
    lemma_le_bytes_of_value(head);
    lemma_radix_pow_widths();
    assert(payload_bytes(s.skip(8)) =~= s);
}

/// The four bytes of a tag are read back as the tag.
pub proof fn lemma_tag_round_trip(tag: nat)
    requires
        tag < 4,
    ensures
        le_bytes(tag, 4).len() == 4,
        le_value(le_bytes(tag, 4)) == tag,
{
    lemma_le_bytes_len(tag, 4);
    lemma_radix_pow_widths();
    lemma_le_value_of_bytes(tag, 4);
}

/// Decoding the bytes of an inbound envelope gives the envelope back.
pub proof fn lemma_inbound_round_trip(m: Inbound)
    requires
        m.wf(),
    ensures
        inbound_parse(inbound_bytes(m)) == Some(m),
{
    let raw = inbound_bytes(m);
    match m {
        Inbound::Connected(id) => {
            lemma_tag_round_trip(TAG_CONNECTED as nat);
            lemma_id_round_trip(id);
            assert(raw.subrange(0, 4) =~= le_bytes(TAG_CONNECTED as nat, 4));
            assert(raw.subrange(4, 13) =~= id_bytes(id));
        },
        Inbound::Disconnected(id) => {
            lemma_tag_round_trip(TAG_DISCONNECTED as nat);
            lemma_id_round_trip(id);
            assert(raw.subrange(0, 4) =~= le_bytes(TAG_DISCONNECTED as nat, 4));
            assert(raw.subrange(4, 13) =~= id_bytes(id));
        },
        Inbound::Input(id, payload) => {
            lemma_tag_round_trip(TAG_INPUT as nat);
            lemma_id_round_trip(id);
            lemma_payload_round_trip(payload);
            assert(raw.subrange(0, 4) =~= le_bytes(TAG_INPUT as nat, 4));
            assert(raw.subrange(4, 13) =~= id_bytes(id));
            assert(raw.skip(13) =~= payload_bytes(payload));
        },
        Inbound::Destroy => {
            lemma_tag_round_trip(TAG_DESTROY as nat);
            assert(raw.subrange(0, 4) =~= le_bytes(TAG_DESTROY as nat, 4));
        },
    }
}

/// A frame that decodes is the encoding of what it decodes to: no two
/// frames stand for the same envelope.
pub proof fn lemma_inbound_canonical(raw: Seq<u8>)
    requires
        inbound_parse(raw) is Some,
    ensures
        inbound_parse(raw).unwrap().wf(),
        inbound_bytes(inbound_parse(raw).unwrap()) == raw,
{
    let head = raw.subrange(0, 4);
    lemma_le_bytes_of_value(head);
    let m = inbound_parse(raw).unwrap();
    match m {
        Inbound::Destroy => {
            assert(inbound_bytes(m) =~= raw);
        },
        Inbound::Connected(id) => {
            lemma_id_canonical(raw.subrange(4, 13));
            assert(inbound_bytes(m) =~= raw);
        },
        Inbound::Disconnected(id) => {
            lemma_id_canonical(raw.subrange(4, 13));
            assert(inbound_bytes(m) =~= raw);
        },
        Inbound::Input(id, payload) => {
            lemma_id_canonical(raw.subrange(4, 13));
            lemma_payload_canonical(raw.skip(13));
            assert(inbound_bytes(m) =~= head + raw.subrange(4, 13) + raw.skip(13));
            assert(head + raw.subrange(4, 13) + raw.skip(13) =~= raw);
        },
    }
}

/// Decoding the bytes of an outbound envelope gives the envelope back.
pub proof fn lemma_outbound_round_trip(m: Outbound)
    requires
        m.wf(),
    ensures
        outbound_parse(outbound_bytes(m)) == Some(m),
{
    let raw = outbound_bytes(m);
    match m {
        Outbound::Loaded => {
            lemma_tag_round_trip(TAG_LOADED as nat);
            assert(raw.subrange(0, 4) =~= le_bytes(TAG_LOADED as nat, 4));
        },
        Outbound::Output(id, payload) => {
            lemma_tag_round_trip(TAG_OUTPUT as nat);
            lemma_id_round_trip(id);
            lemma_payload_round_trip(payload);
            assert(raw.subrange(0, 4) =~= le_bytes(TAG_OUTPUT as nat, 4));
            assert(raw.subrange(4, 13) =~= id_bytes(id));
            assert(raw.skip(13) =~= payload_bytes(payload));
        },
    }
}

/// A byte string that decodes is the encoding of what it decodes to.
pub proof fn lemma_outbound_canonical(raw: Seq<u8>)
    requires
        outbound_parse(raw) is Some,
    ensures
        outbound_parse(raw).unwrap().wf(),
        outbound_bytes(outbound_parse(raw).unwrap()) == raw,
{
    let head = raw.subrange(0, 4);
    lemma_le_bytes_of_value(head);
    let m = outbound_parse(raw).unwrap();
    match m {
        Outbound::Loaded => {
            assert(outbound_bytes(m) =~= raw);
        },
        Outbound::Output(id, payload) => {
            lemma_id_canonical(raw.subrange(4, 13));
            lemma_payload_canonical(raw.skip(13));
            assert(outbound_bytes(m) =~= head + raw.subrange(4, 13) + raw.skip(13));
            assert(head + raw.subrange(4, 13) + raw.skip(13) =~= raw);
        },
    }
}

/// Appends the nine bytes of `id` to `out`.
fn put_id(out: &mut Vec<u8>, id: ConnectionId)
    ensures
        final(out)@ == old(out)@ + id_bytes(id),
{
    put_le(out, id.id, 8);
    let flag: u8 = if id.respondable {
        1
    } else {
        0
    };
    out.push(flag);
    proof {
        assert(out@ =~= old(out)@ + id_bytes(id));
    }
}

/// Appends `payload` behind its length to `out`.
fn put_payload(out: &mut Vec<u8>, payload: &[u8])
    ensures
        final(out)@ == old(out)@ + payload_bytes(payload@),
{
    put_le(out, payload.len() as u64, 8);
    append(out, payload);
    proof {
        assert(out@ =~= old(out)@ + payload_bytes(payload@));
    }
}

/// Reads the connection id in the nine bytes of `raw` from `at` on.
fn get_id(raw: &[u8], at: usize) -> (r: Option<ConnectionId>)
    requires
        at + 9 <= raw.len(),
    ensures
        r == id_parse(raw@.subrange(at as int, at + 9)),
{
    let id: u64 = get_le(raw, at, 8);
    let flag: u8 = raw[at + 8];
    proof {
        let s = raw@.subrange(at as int, at + 9);
        assert(s.subrange(0, 8) =~= raw@.subrange(at as int, at + 8));
        assert(s[8] == flag);
    }
    if flag <= 1 {
        Some(ConnectionId { id, respondable: flag == 1 })
    } else {
        None
    }
}

/// Reads the length-prefixed payload that is all of `raw` from `at` on.
fn get_payload(raw: &[u8], at: usize) -> (r: Option<Vec<u8>>)
    requires
        at <= raw.len(),
    ensures
        match r {
            Some(payload) => payload_parse(raw@.skip(at as int)) == Some(payload@),
            None => payload_parse(raw@.skip(at as int)) is None,
        },
{
    if raw.len() - at < 8 {
        return None;
    }
    let announced: u64 = get_le(raw, at, 8);
    let present: usize = raw.len() - at - 8;
    proof {
        let s = raw@.skip(at as int);
        assert(s.subrange(0, 8) =~= raw@.subrange(at as int, at + 8));
        assert(s.skip(8) =~= raw@.subrange(at + 8, raw.len() as int));
    }
    if announced == present as u64 {
        Some(copy_range(raw, at + 8, raw.len()))
    } else {
        None
    }
}

impl InboundEnvelope {
    /// The bytes that stand for this envelope on the wire.
    pub fn encode(&self) -> (raw: Vec<u8>)
        ensures
            raw@ == inbound_bytes(self@),
    {
        let mut raw: Vec<u8> = Vec::new();
        match self {
            InboundEnvelope::Connected(id) => {
                put_le(&mut raw, TAG_CONNECTED as u64, 4);
                put_id(&mut raw, *id);
            },
            InboundEnvelope::Input(id, payload) => {
                put_le(&mut raw, TAG_INPUT as u64, 4);
                put_id(&mut raw, *id);
                put_payload(&mut raw, payload.as_slice());
            },
            InboundEnvelope::Disconnected(id) => {
                put_le(&mut raw, TAG_DISCONNECTED as u64, 4);
                put_id(&mut raw, *id);
            },
            InboundEnvelope::Destroy => {
                put_le(&mut raw, TAG_DESTROY as u64, 4);
            },
        }
        proof {
            assert(raw@ =~= inbound_bytes(self@));
        }
        raw
    }

    /// Reads one envelope from a frame: the one envelope whose bytes the
    /// frame is. A frame that is the bytes of no envelope is refused as
    /// malformed.
    pub fn decode(raw: &[u8]) -> (r: Result<InboundEnvelope, ServiceError>)
        ensures
            match r {
                Ok(envelope) => inbound_parse(raw@) == Some(envelope@) && raw@ == inbound_bytes(
                    envelope@,
                ),
                Err(err) => {
                    &&& err == ServiceError::Decode
                    &&& inbound_parse(raw@) is None
                    &&& forall|m: Inbound| m.wf() ==> #[trigger] inbound_bytes(m) != raw@
                },
            },
    {
        proof {
            if inbound_parse(raw@) is Some {
                lemma_inbound_canonical(raw@);
            }
            assert forall|m: Inbound| m.wf() && #[trigger] inbound_bytes(m) == raw@ implies inbound_parse(
                raw@,
            ) is Some by {
                lemma_inbound_round_trip(m);
            }
        }
        if raw.len() < 4 {
            return Err(ServiceError::Decode);
        }
        let tag: u64 = get_le(raw, 0, 4);
        if tag == TAG_DESTROY as u64 {
            if raw.len() == 4 {
                return Ok(InboundEnvelope::Destroy);
            }
            return Err(ServiceError::Decode);
        }
        if raw.len() < 13 {
            return Err(ServiceError::Decode);
        }
        let id = match get_id(raw, 4) {
            Some(id) => id,
            None => {
                return Err(ServiceError::Decode);
            },
        };
        if tag == TAG_CONNECTED as u64 {
            if raw.len() == 13 {
                return Ok(InboundEnvelope::Connected(id));
            }
            Err(ServiceError::Decode)
        } else if tag == TAG_DISCONNECTED as u64 {
            if raw.len() == 13 {
                return Ok(InboundEnvelope::Disconnected(id));
            }
            Err(ServiceError::Decode)
        } else if tag == TAG_INPUT as u64 {
            match get_payload(raw, 13) {
                Some(payload) => Ok(InboundEnvelope::Input(id, payload)),
                None => Err(ServiceError::Decode),
            }
        } else {
            Err(ServiceError::Decode)
        }
    }
}

impl OutboundEnvelope {
    /// The bytes that stand for this envelope on the wire.
    pub fn encode(&self) -> (raw: Vec<u8>)
        ensures
            raw@ == outbound_bytes(self@),
    {
        let mut raw: Vec<u8> = Vec::new();
        match self {
            OutboundEnvelope::Loaded => {
                put_le(&mut raw, TAG_LOADED as u64, 4);
            },
            OutboundEnvelope::Output(id, payload) => {
                put_le(&mut raw, TAG_OUTPUT as u64, 4);
                put_id(&mut raw, *id);
                put_payload(&mut raw, payload.as_slice());
            },
        }
        proof {
            assert(raw@ =~= outbound_bytes(self@));
        }
        raw
    }

    /// Reads one envelope from a byte string: the one envelope whose bytes
    /// the string is. A string that is the bytes of no envelope is refused
    /// as malformed.
    pub fn decode(raw: &[u8]) -> (r: Result<OutboundEnvelope, ServiceError>)
        ensures
            match r {
                Ok(envelope) => outbound_parse(raw@) == Some(envelope@) && raw@ == outbound_bytes(
                    envelope@,
                ),
                Err(err) => {
                    &&& err == ServiceError::Decode
                    &&& outbound_parse(raw@) is None
                    &&& forall|m: Outbound| m.wf() ==> #[trigger] outbound_bytes(m) != raw@
                },
            },
    {
        proof {
            if outbound_parse(raw@) is Some {
                lemma_outbound_canonical(raw@);
            }
            assert forall|m: Outbound| m.wf() && #[trigger] outbound_bytes(m) == raw@ implies outbound_parse(
                raw@,
            ) is Some by {
                lemma_outbound_round_trip(m);
            }
        }
        if raw.len() < 4 {
            return Err(ServiceError::Decode);
        }
        let tag: u64 = get_le(raw, 0, 4);
        if tag == TAG_LOADED as u64 {
            if raw.len() == 4 {
                return Ok(OutboundEnvelope::Loaded);
            }
            return Err(ServiceError::Decode);
        }
        if tag != TAG_OUTPUT as u64 || raw.len() < 13 {
            return Err(ServiceError::Decode);
        }
        let id = match get_id(raw, 4) {
            Some(id) => id,
            None => {
                return Err(ServiceError::Decode);
            },
        };
        match get_payload(raw, 13) {
            Some(payload) => Ok(OutboundEnvelope::Output(id, payload)),
            None => Err(ServiceError::Decode),
        }
    }
}

} // verus!
