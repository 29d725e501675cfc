use wasi_worker::{ConnectionId, InboundEnvelope, OutboundEnvelope, ServiceError};

fn id(n: u64) -> ConnectionId {
    ConnectionId { id: n, respondable: true }
}

#[test]
fn inbound_round_trip_every_variant() {
    let cases = vec![
        InboundEnvelope::Connected(id(1)),
        InboundEnvelope::Input(id(1), b"hello".to_vec()),
        InboundEnvelope::Input(ConnectionId { id: u64::MAX, respondable: false }, Vec::new()),
        InboundEnvelope::Disconnected(id(7)),
        InboundEnvelope::Destroy,
    ];
    for envelope in cases {
        let raw = envelope.encode();
        assert_eq!(InboundEnvelope::decode(&raw), Ok(envelope));
    }
}

#[test]
fn outbound_round_trip_every_variant() {
    let cases = vec![
        OutboundEnvelope::Loaded,
        OutboundEnvelope::Output(id(3), b"answer".to_vec()),
        OutboundEnvelope::Output(ConnectionId { id: 0, respondable: false }, vec![0u8; 3000]),
    ];
    for envelope in cases {
        let raw = envelope.encode();
        assert_eq!(OutboundEnvelope::decode(&raw), Ok(envelope));
    }
}

#[test]
fn inbound_layout() {
    assert_eq!(InboundEnvelope::Destroy.encode(), vec![3, 0, 0, 0]);
    assert_eq!(
        InboundEnvelope::Connected(id(1)).encode(),
        vec![0, 0, 0, 0, 1, 0, 0, 0, 0, 0, 0, 0, 1]
    );
    assert_eq!(
        InboundEnvelope::Disconnected(ConnectionId { id: 0x0102, respondable: false }).encode(),
        vec![2, 0, 0, 0, 2, 1, 0, 0, 0, 0, 0, 0, 0]
    );
    assert_eq!(
        InboundEnvelope::Input(id(0x1122334455667788), b"hello".to_vec()).encode(),
        vec![
            1, 0, 0, 0, 0x88, 0x77, 0x66, 0x55, 0x44, 0x33, 0x22, 0x11, 1, 5, 0, 0, 0, 0, 0, 0, 0,
            b'h', b'e', b'l', b'l', b'o'
        ]
    );
}

#[test]
fn outbound_layout() {
    assert_eq!(OutboundEnvelope::Loaded.encode(), vec![0, 0, 0, 0]);
    assert_eq!(
        OutboundEnvelope::Output(id(2), b"ok".to_vec()).encode(),
        vec![1, 0, 0, 0, 2, 0, 0, 0, 0, 0, 0, 0, 1, 2, 0, 0, 0, 0, 0, 0, 0, b'o', b'k']
    );
}

#[test]
fn decode_reads_a_long_payload_length() {
    let payload: Vec<u8> = (0..300).map(|i| (i % 256) as u8).collect();
    let raw = InboundEnvelope::Input(id(9), payload.clone()).encode();
    assert_eq!(&raw[13..21], &[44, 1, 0, 0, 0, 0, 0, 0]);
    assert_eq!(InboundEnvelope::decode(&raw), Ok(InboundEnvelope::Input(id(9), payload)));
}

#[test]
fn decode_refuses_malformed_frames() {
    let bad: Vec<Vec<u8>> = vec![
        vec![],
        vec![0, 0, 0],
        vec![4, 0, 0, 0],
        vec![0, 1, 0, 0, 1, 0, 0, 0, 0, 0, 0, 0, 1],
        vec![3, 0, 0, 0, 0],
        vec![0, 0, 0, 0, 1, 0, 0, 0, 0, 0, 0, 0],
        vec![0, 0, 0, 0, 1, 0, 0, 0, 0, 0, 0, 0, 2],
        vec![0, 0, 0, 0, 1, 0, 0, 0, 0, 0, 0, 0, 1, 0],
        vec![2, 0, 0, 0, 1, 0, 0, 0, 0, 0, 0, 0, 1, 9],
        vec![1, 0, 0, 0, 1, 0, 0, 0, 0, 0, 0, 0, 1],
        vec![1, 0, 0, 0, 1, 0, 0, 0, 0, 0, 0, 0, 1, 2, 0, 0, 0, 0, 0, 0, 0, b'a'],
        vec![1, 0, 0, 0, 1, 0, 0, 0, 0, 0, 0, 0, 1, 1, 0, 0, 0, 0, 0, 0, 0, b'a', b'b'],
        vec![1, 0, 0, 0, 1, 0, 0, 0, 0, 0, 0, 0, 1, 1, 0, 0, 0, 0, 0, 0, 1, b'a'],
    ];
    for raw in bad {
        assert_eq!(InboundEnvelope::decode(&raw), Err(ServiceError::Decode), "{:?}", raw);
    }
}

#[test]
fn outbound_decode_refuses_malformed_bytes() {
    let bad: Vec<Vec<u8>> = vec![
        vec![],
        vec![2, 0, 0, 0],
        vec![0, 0, 0, 0, 0],
        vec![1, 0, 0, 0],
        vec![1, 0, 0, 0, 2, 0, 0, 0, 0, 0, 0, 0, 3, 0, 0, 0, 0, 0, 0, 0, 0],
        vec![1, 0, 0, 0, 2, 0, 0, 0, 0, 0, 0, 0, 1, 1, 0, 0, 0, 0, 0, 0, 0],
    ];
    for raw in bad {
        assert_eq!(OutboundEnvelope::decode(&raw), Err(ServiceError::Decode), "{:?}", raw);
    }
}

#[test]
fn a_decoded_frame_encodes_to_itself() {
    let raw = vec![1, 0, 0, 0, 5, 0, 0, 0, 0, 0, 0, 0, 0, 1, 0, 0, 0, 0, 0, 0, 0, 0xff];
    let envelope = InboundEnvelope::decode(&raw).expect("decode");
    assert_eq!(
        envelope,
        InboundEnvelope::Input(ConnectionId { id: 5, respondable: false }, vec![0xff])
    );
    assert_eq!(envelope.encode(), raw);
}
