use wasi_worker::{
    ConnectionId, ConnectionState, FileOptions, Handler, InboundEnvelope, LifecycleEvent,
    OutboundEnvelope, ServiceError, ServiceOptions, ServiceWorker, ThreadedWASI, WASIAgent,
    WASIResponder, EXIT_CODE,
};

fn id(n: u64) -> ConnectionId {
    ConnectionId { id: n, respondable: true }
}

fn service() -> ServiceWorker<WASIAgent> {
    let mut service: ServiceWorker<WASIAgent> = ServiceWorker::new();
    let opt = ServiceOptions { output: FileOptions::File("./output.bin".to_string()), cleanup: false };
    service.initialize(opt, true).expect("initialize");
    service
}

fn deliver(service: &mut ServiceWorker<WASIAgent>, envelope: &InboundEnvelope) -> Result<usize, ServiceError> {
    service.feed(&envelope.encode()).expect("feed");
    service.on_message()
}

#[test]
fn run_queues_create_and_posts_loaded() {
    let mut service = service();
    let mut agent = WASIAgent::new();
    assert_eq!(agent.run(&mut service), Ok(()));
    assert_eq!(agent.take_events(), vec![LifecycleEvent::Create]);
    let out = service.take_output();
    assert_eq!(out, vec![0, 0, 0, 0]);
    assert_eq!(OutboundEnvelope::decode(&out), Ok(OutboundEnvelope::Loaded));
}

#[test]
fn run_reports_a_service_that_is_not_initialized() {
    let mut service: ServiceWorker<WASIAgent> = ServiceWorker::new();
    let mut agent = WASIAgent::new();
    assert_eq!(agent.run(&mut service), Err(ServiceError::NotConnected));
    assert_eq!(agent.take_events(), vec![LifecycleEvent::Create]);
}

#[test]
fn connection_lifecycle() {
    let mut service = service();
    service.set_message_handler(WASIAgent::new());
    let one = id(1);

    assert_eq!(deliver(&mut service, &InboundEnvelope::Connected(one)), Ok(13));
    assert_eq!(service.message_handler().unwrap().connection(one), Some(ConnectionState::Connected));
    assert_eq!(service.message_handler().unwrap().connection(id(2)), None);

    assert_eq!(deliver(&mut service, &InboundEnvelope::Input(one, b"hello".to_vec())), Ok(26));
    assert_eq!(service.message_handler().unwrap().connection(one), Some(ConnectionState::Active));

    assert_eq!(deliver(&mut service, &InboundEnvelope::Disconnected(one)), Ok(13));
    assert_eq!(service.message_handler().unwrap().connection(one), None);

    let mut agent = service.take_message_handler().unwrap();
    assert_eq!(
        agent.take_events(),
        vec![
            LifecycleEvent::Connected(one),
            LifecycleEvent::Input(one, b"hello".to_vec()),
            LifecycleEvent::Disconnected(one),
        ]
    );
    assert_eq!(agent.take_events(), Vec::<LifecycleEvent>::new());
    assert_eq!(service.take_output(), Vec::<u8>::new());
    assert_eq!(agent.exit_code(), None);
}

#[test]
fn connections_do_not_disturb_each_other() {
    let mut agent = WASIAgent::new();
    let a = id(1);
    let b = ConnectionId { id: 1, respondable: false };
    let c = id(2);
    agent.on_message(&InboundEnvelope::Connected(a).encode()).unwrap();
    agent.on_message(&InboundEnvelope::Connected(b).encode()).unwrap();
    agent.on_message(&InboundEnvelope::Input(c, b"x".to_vec()).encode()).unwrap();
    agent.on_message(&InboundEnvelope::Input(a, b"y".to_vec()).encode()).unwrap();
    agent.on_message(&InboundEnvelope::Input(a, b"z".to_vec()).encode()).unwrap();
    assert_eq!(agent.connection(a), Some(ConnectionState::Active));
    assert_eq!(agent.connection(b), Some(ConnectionState::Connected));
    assert_eq!(agent.connection(c), Some(ConnectionState::Active));
    agent.on_message(&InboundEnvelope::Disconnected(a).encode()).unwrap();
    agent.on_message(&InboundEnvelope::Disconnected(id(9)).encode()).unwrap();
    assert_eq!(agent.connection(a), None);
    assert_eq!(agent.connection(b), Some(ConnectionState::Connected));
    assert_eq!(agent.connection(c), Some(ConnectionState::Active));
    agent.on_message(&InboundEnvelope::Connected(a).encode()).unwrap();
    assert_eq!(agent.connection(a), Some(ConnectionState::Connected));
    assert_eq!(agent.take_events().len(), 8);
}

#[test]
fn malformed_frame_is_a_decode_failure() {
    let mut service = service();
    service.set_message_handler(WASIAgent::new());
    service.feed(&[9, 9, 9]).expect("feed");
    assert_eq!(service.on_message(), Err(ServiceError::Decode));
    assert_eq!(service.pending_input(), 0);
    let mut agent = service.take_message_handler().unwrap();
    assert_eq!(agent.take_events(), Vec::<LifecycleEvent>::new());
    assert!(!agent.is_destroyed());
}

#[test]
fn destroy_ends_the_bridge() {
    let mut service = service();
    service.set_message_handler(WASIAgent::new());
    deliver(&mut service, &InboundEnvelope::Connected(id(4))).unwrap();
    assert_eq!(service.message_handler().unwrap().exit_code(), None);
    assert_eq!(deliver(&mut service, &InboundEnvelope::Destroy), Ok(4));
    let agent = service.message_handler().unwrap();
    assert!(agent.is_destroyed());
    assert_eq!(agent.exit_code(), Some(EXIT_CODE));
    assert_eq!(agent.exit_code(), Some(1));
    assert_eq!(agent.connection(id(4)), None);
    assert_eq!(
        deliver(&mut service, &InboundEnvelope::Connected(id(5))),
        Err(ServiceError::NotConnected)
    );
    let mut agent = service.take_message_handler().unwrap();
    assert_eq!(
        agent.take_events(),
        vec![LifecycleEvent::Connected(id(4)), LifecycleEvent::Destroy]
    );
}

#[test]
fn interleaved_responses_keep_their_ids() {
    let mut service = service();
    let responder = WASIResponder {};
    let a = id(1);
    let b = id(2);
    assert_eq!(responder.respond(&mut service, a, b"a1".to_vec()), None);
    let first = service.take_output();
    assert_eq!(responder.respond(&mut service, b, b"b1".to_vec()), None);
    let second = service.take_output();
    assert_eq!(responder.respond(&mut service, a, b"a2".to_vec()), None);
    let third = service.take_output();
    assert_eq!(OutboundEnvelope::decode(&first), Ok(OutboundEnvelope::Output(a, b"a1".to_vec())));
    assert_eq!(OutboundEnvelope::decode(&second), Ok(OutboundEnvelope::Output(b, b"b1".to_vec())));
    assert_eq!(OutboundEnvelope::decode(&third), Ok(OutboundEnvelope::Output(a, b"a2".to_vec())));
}

#[test]
fn respond_reports_failures_and_sends_nothing() {
    let responder = WASIResponder {};
    let mut unbound: ServiceWorker<WASIAgent> = ServiceWorker::new();
    assert_eq!(
        responder.respond(&mut unbound, id(1), b"x".to_vec()),
        Some(ServiceError::NotConnected)
    );
    let mut service = service();
    service.try_acquire().expect("acquire");
    assert_eq!(responder.respond(&mut service, id(1), b"x".to_vec()), Some(ServiceError::Busy));
    service.release();
    assert_eq!(service.take_output(), Vec::<u8>::new());
}

#[test]
fn piled_up_responses_are_read_back_in_order() {
    let mut service = service();
    let mut agent = WASIAgent::new();
    agent.run(&mut service).expect("run");
    let responder = WASIResponder {};
    let a = id(1);
    let b = ConnectionId { id: 2, respondable: false };
    assert_eq!(responder.respond(&mut service, a, b"first of a".to_vec()), None);
    assert_eq!(responder.respond(&mut service, b, Vec::new()), None);
    assert_eq!(responder.respond(&mut service, a, b"second of a".to_vec()), None);
    let out = service.take_output();
    assert_eq!(
        OutboundEnvelope::decode_stream(&out),
        Ok(vec![
            OutboundEnvelope::Loaded,
            OutboundEnvelope::Output(a, b"first of a".to_vec()),
            OutboundEnvelope::Output(b, Vec::new()),
            OutboundEnvelope::Output(a, b"second of a".to_vec()),
        ])
    );
    assert_eq!(OutboundEnvelope::decode(&out), Err(ServiceError::Decode));
}

#[test]
fn a_broken_stream_is_refused() {
    assert_eq!(OutboundEnvelope::decode_stream(&[]), Ok(Vec::new()));
    let mut raw = OutboundEnvelope::Output(id(1), b"abc".to_vec()).encode();
    raw.extend_from_slice(&OutboundEnvelope::Loaded.encode());
    assert_eq!(OutboundEnvelope::decode_stream(&raw).map(|v| v.len()), Ok(2));
    raw.push(0);
    assert_eq!(OutboundEnvelope::decode_stream(&raw), Err(ServiceError::Decode));
    let cut = OutboundEnvelope::Output(id(1), b"abc".to_vec()).encode();
    assert_eq!(OutboundEnvelope::decode_stream(&cut[..cut.len() - 1]), Err(ServiceError::Decode));
    let mut flagged = OutboundEnvelope::Output(id(1), b"abc".to_vec()).encode();
    flagged[12] = 7;
    assert_eq!(OutboundEnvelope::decode_stream(&flagged), Err(ServiceError::Decode));
}
