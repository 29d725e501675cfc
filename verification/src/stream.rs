//! Reading back what has piled up in the outbound target: any number of
//! outbound envelopes, one behind the other.
use vstd::prelude::*;
use crate::endian::{
    get_le, le_bytes, le_value, lemma_le_bytes_len, lemma_le_value_of_bytes,
    lemma_radix_pow_widths,
};
use crate::envelope::{
    lemma_id_round_trip, lemma_outbound_canonical, lemma_outbound_round_trip,
    lemma_tag_round_trip, outbound_bytes, outbound_parse, Outbound, OutboundEnvelope,
    TAG_LOADED, TAG_OUTPUT,
};
use crate::error::ServiceError;

verus! {

/// The values of a list of outbound envelopes.
pub open spec fn envelopes_view(envelopes: Seq<OutboundEnvelope>) -> Seq<Outbound> {
    envelopes.map_values(|e: OutboundEnvelope| e@)
}

/// The bytes of a list of outbound envelopes, one behind the other.
pub open spec fn outbound_stream_bytes(ms: Seq<Outbound>) -> Seq<u8>
    decreases ms.len(),
{
    if ms.len() == 0 {
        Seq::empty()
    } else {
        outbound_bytes(ms.first()) + outbound_stream_bytes(ms.drop_first())
    }
}

/// How many bytes the envelope at the head of `raw` takes, going by its tag
/// and, for an output, by the length of its payload; `None` where `raw`
/// starts with no tag of an outbound envelope or ends before the envelope does.
pub open spec fn outbound_first_len(raw: Seq<u8>) -> Option<nat> {
    if raw.len() < 4 {
        None
    } else {
        let tag = le_value(raw.subrange(0, 4));
        if tag == TAG_LOADED as nat {
            Some(4)
        } else if tag == TAG_OUTPUT as nat && raw.len() >= 21 {
            let n = 21 + le_value(raw.subrange(13, 21));
            if n <= raw.len() {
                Some(n)
            } else {
                None
            }
        } else {
            None
        }
    }
}

/// An optional list with `head` put before it.
pub open spec fn behind(head: Seq<Outbound>, tail: Option<Seq<Outbound>>) -> Option<
    Seq<Outbound>,
> {
    match tail {
        Some(rest) => Some(head + rest),
        None => None,
    }
}

/// The outbound envelopes that `raw` holds one behind the other, or `None`
/// where `raw` is not made of whole well-formed envelopes.
pub open spec fn outbound_stream_parse(raw: Seq<u8>) -> Option<Seq<Outbound>>
    decreases raw.len(),
{
    if raw.len() == 0 {
        Some(Seq::empty())
    } else {
        match outbound_first_len(raw) {
            None => None,
            Some(n) => match outbound_parse(raw.take(n as int)) {
                None => None,
                Some(m) => behind(seq![m], outbound_stream_parse(raw.skip(n as int))),
            },
        }
    }
}

/// The bytes of an outbound envelope: how many there are, and never none.
pub proof fn lemma_outbound_len(m: Outbound)
    ensures
        outbound_bytes(m).len() == match m {
            Outbound::Loaded => 4,
            Outbound::Output(_, payload) => 21 + payload.len(),
        },
{
    lemma_le_bytes_len(TAG_LOADED as nat, 4);
    lemma_le_bytes_len(TAG_OUTPUT as nat, 4);
    match m {
        Outbound::Loaded => {},
        Outbound::Output(id, payload) => {
            lemma_id_round_trip(id);
            lemma_le_bytes_len(payload.len(), 8);
        },
    }
}

/// An envelope at the head of a byte string is found there whatever follows.
pub proof fn lemma_head_is_found(m: Outbound, tail: Seq<u8>)
    requires
        m.wf(),
    ensures
        outbound_first_len(outbound_bytes(m) + tail) == Some(outbound_bytes(m).len()),
{
    let raw = outbound_bytes(m) + tail;
    lemma_outbound_len(m);
    match m {
        Outbound::Loaded => {
            lemma_tag_round_trip(TAG_LOADED as nat);
            assert(raw.subrange(0, 4) =~= le_bytes(TAG_LOADED as nat, 4));
        },
        Outbound::Output(id, payload) => {
            lemma_tag_round_trip(TAG_OUTPUT as nat);
            lemma_id_round_trip(id);
            lemma_le_bytes_len(payload.len(), 8);
            lemma_radix_pow_widths();
            lemma_le_value_of_bytes(payload.len(), 8);
            assert(raw.subrange(0, 4) =~= le_bytes(TAG_OUTPUT as nat, 4));
            assert(raw.subrange(13, 21) =~= le_bytes(payload.len(), 8));
        },
    }
}

/// Envelopes written one behind the other are read back as they were
/// written, each with its own id and payload and in the same order.
pub proof fn lemma_stream_round_trip(ms: Seq<Outbound>)
    requires
        forall|i: int| 0 <= i < ms.len() ==> (#[trigger] ms[i]).wf(),
    ensures
        outbound_stream_parse(outbound_stream_bytes(ms)) == Some(ms),
    decreases ms.len(),
{
    if ms.len() > 0 {
        let m = ms.first();
        let rest = ms.drop_first();
        let tail = outbound_stream_bytes(rest);
        let raw = outbound_stream_bytes(ms);
        assert(m.wf());
        assert forall|i: int| 0 <= i < rest.len() implies (#[trigger] rest[i]).wf() by {
            assert(rest[i] == ms[i + 1]);
        }
        lemma_stream_round_trip(rest);
        lemma_outbound_len(m);
        lemma_head_is_found(m, tail);
        lemma_outbound_round_trip(m);
        let n = outbound_bytes(m).len();
        assert(raw.take(n as int) =~= outbound_bytes(m));
        assert(raw.skip(n as int) =~= tail);
        assert(seq![m] + rest =~= ms);
    }
}

/// Bytes that read as a list of envelopes are those envelopes written one
/// behind the other.
pub proof fn lemma_stream_canonical(raw: Seq<u8>)
    requires
        outbound_stream_parse(raw) is Some,
    ensures
        outbound_stream_bytes(outbound_stream_parse(raw).unwrap()) == raw,
        forall|i: int|
            0 <= i < outbound_stream_parse(raw).unwrap().len() ==> (
            #[trigger] outbound_stream_parse(raw).unwrap()[i]).wf(),
    decreases raw.len(),
{
    let ms = outbound_stream_parse(raw).unwrap();
    if raw.len() == 0 {
        assert(outbound_stream_bytes(ms) =~= raw);
    } else {
        let n = outbound_first_len(raw).unwrap();
        let m = outbound_parse(raw.take(n as int)).unwrap();
        let rest = outbound_stream_parse(raw.skip(n as int)).unwrap();
        lemma_stream_canonical(raw.skip(n as int));
        lemma_outbound_canonical(raw.take(n as int));
        assert(ms =~= seq![m] + rest);
        assert(ms.first() == m);
        assert(ms.drop_first() =~= rest);
        assert(raw.take(n as int) + raw.skip(n as int) =~= raw);
        assert forall|i: int| 0 <= i < ms.len() implies (#[trigger] ms[i]).wf() by {
            if i > 0 {
                assert(ms[i] == rest[i - 1]);
            }
        }
    }
}

/// The length of the envelope at the head of `raw` from `at` on.
fn first_len(raw: &[u8], at: usize) -> (r: Option<usize>)
    requires
        at <= raw.len(),
    ensures
        match r {
            Some(n) => outbound_first_len(raw@.skip(at as int)) == Some(n as nat) && at + n
                <= raw.len(),
            None => outbound_first_len(raw@.skip(at as int)) is None,
        },
{
    let left: usize = raw.len() - at;
    if left < 4 {
        return None;
    }
    let tag: u64 = get_le(raw, at, 4);
    proof {
        let s = raw@.skip(at as int);
        assert(s.subrange(0, 4) =~= raw@.subrange(at as int, at + 4));
        if left >= 21 {
            assert(s.subrange(13, 21) =~= raw@.subrange(at + 13, at + 21));
        }
    }
    if tag == TAG_LOADED as u64 {
        Some(4)
    } else if tag == TAG_OUTPUT as u64 && left >= 21 {
        let announced: u64 = get_le(raw, at + 13, 8);
        if announced <= (left - 21) as u64 {
            Some(21 + announced as usize)
        } else {
            None
        }
    } else {
        None
    }
}

impl OutboundEnvelope {
    /// Reads all the envelopes that `raw` holds one behind the other. Bytes
    /// that are not whole well-formed envelopes, from first to last, are
    /// refused as malformed.
    pub fn decode_stream(raw: &[u8]) -> (r: Result<Vec<OutboundEnvelope>, ServiceError>)
        ensures
            match r {
                Ok(envelopes) => {
                    &&& outbound_stream_parse(raw@) == Some(envelopes_view(envelopes@))
                    &&& raw@ == outbound_stream_bytes(envelopes_view(envelopes@))
                },
                Err(err) => err == ServiceError::Decode && outbound_stream_parse(raw@) is None,
            },
    {
        let mut envelopes: Vec<OutboundEnvelope> = Vec::new();
        let mut at: usize = 0;
        proof {
            if outbound_stream_parse(raw@) is Some {
                lemma_stream_canonical(raw@);
            }
            assert(raw@.skip(0) =~= raw@);
            assert(envelopes_view(envelopes@) + outbound_stream_parse(raw@).unwrap()
                =~= outbound_stream_parse(raw@).unwrap());
        }
        while at < raw.len()
            invariant
                at <= raw.len(),
                outbound_stream_parse(raw@) == behind(
                    envelopes_view(envelopes@),
                    outbound_stream_parse(raw@.skip(at as int)),
                ),
            decreases raw.len() - at,
        {
            let ghost here = raw@.skip(at as int);
            let n = match first_len(raw, at) {
                Some(n) => n,
                None => {
                    return Err(ServiceError::Decode);
                },
            };
            let frame = vstd::slice::slice_subrange(raw, at, at + n);
            proof {
                assert(here.take(n as int) =~= frame@);
                assert(here.skip(n as int) =~= raw@.skip(at + n));
            }
            let envelope = match OutboundEnvelope::decode(frame) {
                Ok(envelope) => envelope,
                Err(err) => {
                    return Err(err);
                },
            };
            let ghost before = envelopes_view(envelopes@);
            envelopes.push(envelope);
            proof {
                assert(envelopes_view(envelopes@) =~= before + seq![envelope@]);
                let tail = outbound_stream_parse(raw@.skip(at + n));
                if tail is Some {
                    assert(before + (seq![envelope@] + tail.unwrap()) =~= envelopes_view(
                        envelopes@,
                    ) + tail.unwrap());
                }
            }
            at = at + n;
        }
        proof {
            assert(envelopes_view(envelopes@) + Seq::<Outbound>::empty() =~= envelopes_view(
                envelopes@,
            ));
        }
        Ok(envelopes)
    }
}

} // verus!
