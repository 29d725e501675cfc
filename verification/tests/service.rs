use wasi_worker::{
    FileOptions, Handler, ServiceError, ServiceOptions, ServiceWorker, Teardown, MAX_FRAME,
};

struct Recorder {
    frames: Vec<Vec<u8>>,
    fail: bool,
}

impl Recorder {
    fn new() -> Self {
        Recorder { frames: Vec::new(), fail: false }
    }
}

impl Handler for Recorder {
    fn on_message(&mut self, msg: &[u8]) -> Result<(), ServiceError> {
        self.frames.push(msg.to_vec());
        if self.fail {
            Err(ServiceError::Io)
        } else {
            Ok(())
        }
    }
}

fn test_options(cleanup: bool) -> ServiceOptions {
    ServiceOptions { output: FileOptions::File("./testdata/output.bin".to_string()), cleanup }
}

#[test]
fn cleanup() {
    let mut service: ServiceWorker<Recorder> = ServiceWorker::new();
    let opt = ServiceOptions {
        output: FileOptions::File("./testdata/output.bin".to_string()),
        cleanup: true,
    };
    service.initialize(opt, true).expect("ServiceWorker::initialize");
    assert!(service.is_initialized());
    let teardown = service.kill();
    assert_eq!(teardown.remove, Some("./testdata/output.bin".to_string()));
    assert!(!service.is_initialized());
}

#[test]
fn cleanup_off_keeps_target() {
    let mut service: ServiceWorker<Recorder> = ServiceWorker::new();
    service.initialize(test_options(false), true).expect("ServiceWorker::initialize");
    service.post_message(b"left").expect("ServiceWorker::post_message");
    let teardown = service.kill();
    assert_eq!(teardown, Teardown { remove: None, pending: b"left".to_vec() });
}

#[test]
fn lib_it_works() {
    let mut service: ServiceWorker<Recorder> = ServiceWorker::new();
    let opt = ServiceOptions {
        output: FileOptions::File("./testdata/output.bin".to_string()),
        cleanup: true,
    };
    service.initialize(opt, true).expect("ServiceWorker::initialize");
    service.set_message_handler(Recorder::new());
    let message = b"check";
    service.post_message(message).expect("ServiceWorker::post_message");
    let data = service.take_output();
    assert_eq!(data, message);
}

#[test]
fn default_options_keep_the_target() {
    let opt = ServiceOptions::default();
    assert!(!opt.cleanup);
    assert_eq!(opt.output, FileOptions::File("./output.bin".to_string()));
    let sandboxed = ServiceOptions::for_target(true);
    assert_eq!(sandboxed.output, FileOptions::File("/output.bin".to_string()));
    assert!(!sandboxed.cleanup);
}

#[test]
fn with_cleanup_sets_only_the_flag() {
    let opt = ServiceOptions::default().with_cleanup();
    assert!(opt.cleanup);
    assert_eq!(opt.output, FileOptions::File("./output.bin".to_string()));
}

#[test]
fn initialize_fails_when_target_cannot_be_created() {
    let mut service: ServiceWorker<Recorder> = ServiceWorker::new();
    assert_eq!(service.initialize(test_options(true), false), Err(ServiceError::Io));
    assert!(!service.is_initialized());
    assert_eq!(service.post_message(b"x"), Err(ServiceError::NotConnected));
}

#[test]
fn initialize_again_replaces_the_binding() {
    let mut service: ServiceWorker<Recorder> = ServiceWorker::new();
    let first = service.initialize(test_options(true), true).expect("first");
    assert_eq!(first, Teardown { remove: None, pending: Vec::new() });
    service.post_message(b"old").expect("post");
    service.feed(b"unread").expect("feed");
    let other = ServiceOptions { output: FileOptions::File("./other.bin".to_string()), cleanup: false };
    let second = service.initialize(other, true).expect("second");
    assert_eq!(
        second,
        Teardown { remove: Some("./testdata/output.bin".to_string()), pending: b"old".to_vec() }
    );
    assert_eq!(service.pending_input(), 0);
    assert_eq!(service.take_output(), Vec::<u8>::new());
    assert_eq!(service.kill().remove, None);
}

#[test]
fn failed_initialize_keeps_the_prior_binding() {
    let mut service: ServiceWorker<Recorder> = ServiceWorker::new();
    service.initialize(test_options(true), true).expect("first");
    service.post_message(b"kept").expect("post");
    assert_eq!(service.initialize(test_options(false), false), Err(ServiceError::Io));
    assert_eq!(service.take_output(), b"kept".to_vec());
    assert_eq!(service.kill().remove, Some("./testdata/output.bin".to_string()));
}

#[test]
fn post_message_needs_an_initialized_service() {
    let mut service: ServiceWorker<Recorder> = ServiceWorker::new();
    assert_eq!(service.post_message(b"mymessage"), Err(ServiceError::NotConnected));
    assert_eq!(service.take_output(), Vec::<u8>::new());
    assert_eq!(service.feed(b"in"), Err(ServiceError::NotConnected));
}

#[test]
fn posted_bytes_come_out_in_order() {
    let mut service: ServiceWorker<Recorder> = ServiceWorker::new();
    service.initialize(test_options(false), true).expect("init");
    service.post_message(b"one").expect("post");
    service.post_message(b"").expect("post");
    service.post_message(b"two").expect("post");
    assert_eq!(service.take_output(), b"onetwo".to_vec());
    assert_eq!(service.take_output(), Vec::<u8>::new());
    let long: Vec<u8> = (0..2500).map(|i| (i % 251) as u8).collect();
    service.post_message(&long).expect("post");
    assert_eq!(service.take_output(), long);
}

#[test]
fn on_message_needs_an_initialized_service() {
    let mut service: ServiceWorker<Recorder> = ServiceWorker::new();
    service.set_message_handler(Recorder::new());
    assert_eq!(service.on_message(), Err(ServiceError::NotConnected));
    assert!(service.message_handler().unwrap().frames.is_empty());
}

#[test]
fn on_message_without_handler_consumes_one_frame() {
    let mut service: ServiceWorker<Recorder> = ServiceWorker::new();
    service.initialize(test_options(false), true).expect("init");
    let input: Vec<u8> = (0..2300).map(|i| (i % 256) as u8).collect();
    service.feed(&input).expect("feed");
    assert_eq!(service.on_message(), Err(ServiceError::NotConnected));
    assert_eq!(service.pending_input(), 1300);
    service.set_message_handler(Recorder::new());
    assert_eq!(service.on_message(), Ok(MAX_FRAME));
    assert_eq!(service.on_message(), Ok(300));
    assert_eq!(service.on_message(), Ok(0));
    let handler = service.take_message_handler().unwrap();
    assert_eq!(handler.frames.len(), 3);
    assert_eq!(handler.frames[0], input[1000..2000].to_vec());
    assert_eq!(handler.frames[1], input[2000..].to_vec());
    assert_eq!(handler.frames[2], Vec::<u8>::new());
}

#[test]
fn on_message_forwards_the_exact_bytes() {
    let mut service: ServiceWorker<Recorder> = ServiceWorker::new();
    service.initialize(test_options(false), true).expect("init");
    service.set_message_handler(Recorder::new());
    service.feed(b"hello").expect("feed");
    assert_eq!(service.on_message(), Ok(5));
    assert_eq!(service.message_handler().unwrap().frames, vec![b"hello".to_vec()]);
    assert_eq!(service.take_output(), Vec::<u8>::new());
}

#[test]
fn handler_failure_propagates_and_bytes_stay_consumed() {
    let mut service: ServiceWorker<Recorder> = ServiceWorker::new();
    service.initialize(test_options(false), true).expect("init");
    service.set_message_handler(Recorder { frames: Vec::new(), fail: true });
    service.feed(b"bad").expect("feed");
    assert_eq!(service.on_message(), Err(ServiceError::Io));
    assert_eq!(service.pending_input(), 0);
    assert_eq!(service.message_handler().unwrap().frames, vec![b"bad".to_vec()]);
}

#[test]
fn new_handler_replaces_the_old_one() {
    let mut service: ServiceWorker<Recorder> = ServiceWorker::new();
    service.initialize(test_options(false), true).expect("init");
    service.set_message_handler(Recorder::new());
    service.feed(b"a").expect("feed");
    service.on_message().expect("on_message");
    service.set_message_handler(Recorder::new());
    service.feed(b"b").expect("feed");
    service.on_message().expect("on_message");
    assert_eq!(service.message_handler().unwrap().frames, vec![b"b".to_vec()]);
}

#[test]
fn held_guard_makes_operations_busy() {
    let mut service: ServiceWorker<Recorder> = ServiceWorker::new();
    service.initialize(test_options(false), true).expect("init");
    service.set_message_handler(Recorder::new());
    service.feed(b"frame").expect("feed");
    assert_eq!(service.try_acquire(), Ok(()));
    assert!(service.is_in_use());
    assert_eq!(service.try_acquire(), Err(ServiceError::Busy));
    assert_eq!(service.post_message(b"x"), Err(ServiceError::Busy));
    assert_eq!(service.on_message(), Err(ServiceError::Busy));
    assert_eq!(service.initialize(test_options(false), true), Err(ServiceError::Busy));
    assert_eq!(service.pending_input(), 5);
    service.release();
    assert!(!service.is_in_use());
    assert_eq!(service.post_message(b"x"), Ok(()));
    assert_eq!(service.on_message(), Ok(5));
    assert_eq!(service.take_output(), b"x".to_vec());
}

#[test]
fn kill_releases_handler_and_guard() {
    let mut service: ServiceWorker<Recorder> = ServiceWorker::new();
    service.initialize(test_options(true), true).expect("init");
    service.set_message_handler(Recorder::new());
    service.try_acquire().expect("acquire");
    let teardown = service.kill();
    assert_eq!(teardown.remove, Some("./testdata/output.bin".to_string()));
    assert!(service.message_handler().is_none());
    assert!(!service.is_in_use());
    assert_eq!(service.on_message(), Err(ServiceError::NotConnected));
    assert_eq!(service.kill(), Teardown { remove: None, pending: Vec::new() });
}

#[test]
fn error_messages() {
    assert_eq!(ServiceError::NotConnected.message(), "service was not initialized");
    assert_eq!(ServiceError::Busy.message(), "service is in use");
    assert_eq!(ServiceError::Io.message(), "channel failure");
    assert_eq!(ServiceError::Decode.message(), "malformed envelope");
}
