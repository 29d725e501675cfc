//! The service context: the transport, the bound handler and the guard that
//! keeps two operations from running into each other.
use vstd::prelude::*;
use crate::error::ServiceError;
use crate::options::{FileOptions, ServiceOptions};
use crate::transport::{Channels, Transport};

verus! {

/// The most bytes that one read of the inbound stream takes.
pub const MAX_FRAME: usize = 1000;

/// Reacts to the frames that the service reads.
pub trait Handler: Sized {
    /// Whether handling the frame `msg` in this state may leave the handler
    /// as `after` and return `r`. A handler that does not say otherwise
    /// promises nothing.
    open spec fn handles(&self, msg: Seq<u8>, after: Self, r: Result<(), ServiceError>) -> bool {
        true
    }

    /// Handles one frame.
    fn on_message(&mut self, msg: &[u8]) -> (r: Result<(), ServiceError>)
        ensures
            old(self).handles(msg@, *final(self), r),
    ;
}

/// What is left to do outside the service once a binding has been given up.
#[derive(Debug, PartialEq, Eq)]
pub struct Teardown {
    /// The outbound target to remove, if the binding asked for cleanup.
    pub remove: Option<String>,
    /// The outbound bytes that the host had not picked up yet.
    pub pending: Vec<u8>,
}

/// The mathematical value of a [`Teardown`].
pub ghost struct TeardownView {
    pub remove: Option<Seq<char>>,
    pub pending: Seq<u8>,
}

impl View for Teardown {
    type V = TeardownView;

    open spec fn view(&self) -> TeardownView {
        TeardownView {
            remove: match self.remove {
                Some(path) => Some(path@),
                None => None,
            },
            pending: self.pending@,
        }
    }
}

/// What `initialize` binds: the channels and how they were configured.
pub ghost struct Binding {
    pub channels: Channels,
    pub cleanup: bool,
    pub path: Seq<char>,
}

impl Binding {
    /// What is left to do when this binding is given up.
    pub open spec fn teardown(self) -> TeardownView {
        TeardownView {
            remove: if self.cleanup {
                Some(self.path)
            } else {
                None
            },
            pending: self.channels.outbound,
        }
    }
}

/// The state of a [`ServiceWorker`].
pub ghost struct ServiceView<H> {
    /// The binding, once the service is initialized.
    pub bound: Option<Binding>,
    /// The handler, once one is registered.
    pub handler: Option<H>,
    /// Whether the guard is held.
    pub in_use: bool,
}

/// What the handler was owed to return for the service to return `r`.
pub open spec fn delivery(r: Result<usize, ServiceError>) -> Result<(), ServiceError> {
    match r {
        Ok(_) => Ok(()),
        Err(e) => Err(e),
    }
}

impl<H> ServiceView<H> {
    /// A service that was never initialized.
    pub open spec fn fresh() -> ServiceView<H> {
        ServiceView { bound: None, handler: None, in_use: false }
    }

    /// What is left to do when the present binding, if any, is given up.
    pub open spec fn teardown(self) -> TeardownView {
        match self.bound {
            Some(binding) => binding.teardown(),
            None => TeardownView { remove: None, pending: Seq::empty() },
        }
    }

    /// The unread inbound bytes; none while the service is not initialized.
    pub open spec fn inbound(self) -> Seq<u8> {
        match self.bound {
            Some(binding) => binding.channels.inbound,
            None => Seq::empty(),
        }
    }

    /// The outbound bytes not picked up yet; none while the service is not
    /// initialized.
    pub open spec fn outbound(self) -> Seq<u8> {
        match self.bound {
            Some(binding) => binding.channels.outbound,
            None => Seq::empty(),
        }
    }

    /// The state with other channels, if it is bound at all.
    pub open spec fn with_channels(self, channels: Channels) -> ServiceView<H> {
        match self.bound {
            Some(binding) => ServiceView { bound: Some(Binding { channels, ..binding }), ..self },
            None => self,
        }
    }

    /// `initialize`: fails with `Io` where the target could not be created
    /// and with `Busy` where the guard is held, and then changes nothing;
    /// else binds two empty channels and hands back the teardown of what
    /// was bound before.
    pub open spec fn initialize(self, cleanup: bool, path: Seq<char>, created: bool) -> (
        ServiceView<H>,
        Result<TeardownView, ServiceError>,
    ) {
        if !created {
            (self, Err(ServiceError::Io))
        } else if self.in_use {
            (self, Err(ServiceError::Busy))
        } else {
            (
                ServiceView {
                    bound: Some(Binding { channels: Channels::empty(), cleanup, path }),
                    ..self
                },
                Ok(self.teardown()),
            )
        }
    }

    /// `post_message`: fails with `Busy` where the guard is held and with
    /// `NotConnected` where the service is not initialized, and then
    /// changes nothing; else appends `msg` to the outbound bytes.
    pub open spec fn post_message(self, msg: Seq<u8>) -> (
        ServiceView<H>,
        Result<(), ServiceError>,
    ) {
        if self.in_use {
            (self, Err(ServiceError::Busy))
        } else {
            match self.bound {
                None => (self, Err(ServiceError::NotConnected)),
                Some(binding) => (self.with_channels(binding.channels.sent(msg)), Ok(())),
            }
        }
    }

    /// `feed`: the host writes `bytes` to the inbound stream of an
    /// initialized service.
    pub open spec fn feed(self, bytes: Seq<u8>) -> (ServiceView<H>, Result<(), ServiceError>) {
        match self.bound {
            None => (self, Err(ServiceError::NotConnected)),
            Some(binding) => (self.with_channels(binding.channels.fed(bytes)), Ok(())),
        }
    }

    /// `take_output`: the host picks up the outbound bytes.
    pub open spec fn take_output(self) -> (ServiceView<H>, Seq<u8>) {
        match self.bound {
            None => (self, Seq::empty()),
            Some(binding) => (self.with_channels(binding.channels.drained()), self.outbound()),
        }
    }

    /// `kill`: gives up handler, binding and guard.
    pub open spec fn kill(self) -> (ServiceView<H>, TeardownView) {
        (ServiceView::fresh(), self.teardown())
    }

    /// `try_acquire`: takes the guard, or fails with `Busy` where it is held.
    pub open spec fn try_acquire(self) -> (ServiceView<H>, Result<(), ServiceError>) {
        if self.in_use {
            (self, Err(ServiceError::Busy))
        } else {
            (ServiceView { in_use: true, ..self }, Ok(()))
        }
    }
}

impl<H: Handler> ServiceView<H> {
    /// `on_message`: whether one call may lead from this state to `after`
    /// and return `r`.
    ///
    /// With the guard held it fails with `Busy`, and without a binding with
    /// `NotConnected`; nothing changes then. Else one frame of at most
    /// [`MAX_FRAME`] bytes leaves the inbound stream, whatever follows.
    /// Without a handler the call fails with `NotConnected`. With one, the
    /// handler gets exactly the frame; its error is returned as it is, and
    /// where it succeeds the length of the frame is returned.
    pub open spec fn on_message(
        self,
        after: ServiceView<H>,
        r: Result<usize, ServiceError>,
    ) -> bool {
        if self.in_use {
            after == self && r == Err::<usize, ServiceError>(ServiceError::Busy)
        } else {
            match self.bound {
                None => after == self && r == Err::<usize, ServiceError>(
                    ServiceError::NotConnected,
                ),
                Some(binding) => {
                    let frame = binding.channels.frame(MAX_FRAME as nat);
                    &&& after.in_use == self.in_use
                    &&& after.bound == Some(
                        Binding { channels: binding.channels.received(MAX_FRAME as nat), ..binding },
                    )
                    &&& match self.handler {
                        None => after.handler is None && r == Err::<usize, ServiceError>(
                            ServiceError::NotConnected,
                        ),
                        Some(handler) => {
                            &&& after.handler is Some
                            &&& handler.handles(frame, after.handler.unwrap(), delivery(r))
                            &&& r is Ok ==> r.unwrap() == frame.len()
                        },
                    }
                },
            }
        }
    }
}

/// The channels of an initialized service, and its options.
struct ServiceState {
    transport: Transport,
    options: ServiceOptions,
}

/// The one context through which a compute unit talks to its host.
///
/// It holds the transport once `initialize` has bound it, at most one
/// [`Handler`], and a guard. The program around it moves bytes from the real
/// inbound stream into it with `feed`, and from it to the real outbound target
/// with `take_output`.
pub struct ServiceWorker<H: Handler> {
    service: Option<ServiceState>,
    handler: Option<H>,
    in_use: bool,
}

impl ServiceState {
    spec fn binding(&self) -> Binding {
        Binding {
            channels: self.transport@,
            cleanup: self.options.cleanup,
            path: self.options.output.path(),
        }
    }

    /// Gives the state up for its teardown.
    fn dismantle(self) -> (t: Teardown)
        ensures
            t@ == self.binding().teardown(),
    {
        let ServiceState { mut transport, options } = self;
        let pending = transport.drain();
        let remove = if options.cleanup {
            match options.output {
                FileOptions::File(path) => Some(path),
            }
        } else {
            None
        };
        Teardown { remove, pending }
    }
}

impl<H: Handler> View for ServiceWorker<H> {
    type V = ServiceView<H>;

    closed spec fn view(&self) -> ServiceView<H> {
        ServiceView {
            bound: match self.service {
                Some(state) => Some(state.binding()),
                None => None,
            },
            handler: self.handler,
            in_use: self.in_use,
        }
    }
}

impl<H: Handler> ServiceWorker<H> {
    /// A context that is not initialized and has no handler.
    pub fn new() -> (s: ServiceWorker<H>)
        ensures
            s@ == ServiceView::<H>::fresh(),
    {
        ServiceWorker { service: None, handler: None, in_use: false }
    }

    /// Binds the service to the outbound target that `options` names.
    ///
    /// `created` says whether that target could be created or truncated.
    /// Where it could not, the call fails with `Io` and the service stays as
    /// it was, as it does where the guard is held (`Busy`). Else both
    /// channels start empty, and the teardown of the binding that was
    /// replaced, if there was one, is handed back.
    pub fn initialize(&mut self, options: ServiceOptions, created: bool) -> (r: Result<
        Teardown,
        ServiceError,
    >)
        ensures
            final(self)@ == old(self)@.initialize(
                options.cleanup,
                options.output.path(),
                created,
            ).0,
            match r {
                Ok(t) => Ok::<TeardownView, ServiceError>(t@) == old(self)@.initialize(
                    options.cleanup,
                    options.output.path(),
                    created,
                ).1,
                Err(e) => Err::<TeardownView, ServiceError>(e) == old(self)@.initialize(
                    options.cleanup,
                    options.output.path(),
                    created,
                ).1,
            },
    {
        if !created {
            return Err(ServiceError::Io);
        }
        if self.in_use {
            return Err(ServiceError::Busy);
        }
        let prior = self.service.take();
        self.service = Some(ServiceState { transport: Transport::new(), options });
        match prior {
            Some(state) => Ok(state.dismantle()),
            None => Ok(Teardown { remove: None, pending: Vec::new() }),
        }
    }

    /// Binds `handler` in place of the one bound before, which is dropped.
    pub fn set_message_handler(&mut self, handler: H)
        ensures
            final(self)@ == (ServiceView { handler: Some(handler), ..old(self)@ }),
    {
        self.handler = Some(handler);
    }

    /// Unbinds the handler and hands it back.
    pub fn take_message_handler(&mut self) -> (handler: Option<H>)
        ensures
            handler == old(self)@.handler,
            final(self)@ == (ServiceView { handler: None, ..old(self)@ }),
    {
        self.handler.take()
    }

    /// The bound handler.
    pub fn message_handler(&self) -> (handler: Option<&H>)
        ensures
            match handler {
                Some(h) => self@.handler == Some(*h),
                None => self@.handler is None,
            },
    {
        self.handler.as_ref()
    }

    /// Writes `msg` to the outbound target.
    pub fn post_message(&mut self, msg: &[u8]) -> (r: Result<(), ServiceError>)
        ensures
            (final(self)@, r) == old(self)@.post_message(msg@),
    {
        if self.in_use {
            return Err(ServiceError::Busy);
        }
        match self.service.take() {
            Some(mut state) => {
                state.transport.send(msg);
                self.service = Some(state);
                Ok(())
            },
            None => Err(ServiceError::NotConnected),
        }
    }

    /// Reads one frame of at most [`MAX_FRAME`] bytes from the inbound
    /// stream and hands it to the bound handler. Returns the length of the
    /// frame. The frame is gone from the stream whether or not a handler is
    /// bound and whatever the handler returns. Where the stream holds
    /// nothing the frame is empty; where it holds more than one frame the
    /// rest waits for the next call.
    pub fn on_message(&mut self) -> (r: Result<usize, ServiceError>)
        ensures
            old(self)@.on_message(final(self)@, r),
    {
        if self.in_use {
            return Err(ServiceError::Busy);
        }
        let frame = match self.service.take() {
            Some(mut state) => {
                let frame = state.transport.receive(MAX_FRAME);
                self.service = Some(state);
                frame
            },
            None => {
                return Err(ServiceError::NotConnected);
            },
        };
        match self.handler.take() {
            Some(mut handler) => {
                let outcome = handler.on_message(frame.as_slice());
                self.handler = Some(handler);
                match outcome {
                    Ok(_unit) => {
                        assert(outcome == Ok::<(), ServiceError>(()));
                        Ok(frame.len())
                    },
                    Err(e) => Err(e),
                }
            },
            None => Err(ServiceError::NotConnected),
        }
    }

    /// Gives up the handler, the binding and the guard, and says what is
    /// left to do: the outbound target is to be removed where the binding
    /// asked for cleanup, and kept where it did not.
    pub fn kill(&mut self) -> (t: Teardown)
        ensures
            (final(self)@, t@) == old(self)@.kill(),
    {
        self.handler = None;
        self.in_use = false;
        match self.service.take() {
            Some(state) => state.dismantle(),
            None => Teardown { remove: None, pending: Vec::new() },
        }
    }

    /// Takes the guard without waiting: fails with `Busy` where it is held.
    pub fn try_acquire(&mut self) -> (r: Result<(), ServiceError>)
        ensures
            (final(self)@, r) == old(self)@.try_acquire(),
    {
        if self.in_use {
            Err(ServiceError::Busy)
        } else {
            self.in_use = true;
            Ok(())
        }
    }

    /// Lets go of the guard.
    pub fn release(&mut self)
        ensures
            final(self)@ == (ServiceView { in_use: false, ..old(self)@ }),
    {
        self.in_use = false;
    }

    /// The host writes `bytes` to the inbound stream. Fails with
    /// `NotConnected` where the service is not initialized.
    pub fn feed(&mut self, bytes: &[u8]) -> (r: Result<(), ServiceError>)
        ensures
            (final(self)@, r) == old(self)@.feed(bytes@),
    {
        match self.service.take() {
            Some(mut state) => {
                state.transport.feed(bytes);
                self.service = Some(state);
                Ok(())
            },
            None => Err(ServiceError::NotConnected),
        }
    }

    /// The host picks up the outbound bytes, in the order in which they
    /// were posted.
    pub fn take_output(&mut self) -> (bytes: Vec<u8>)
        ensures
            (final(self)@, bytes@) == old(self)@.take_output(),
    {
        match self.service.take() {
            Some(mut state) => {
                let bytes = state.transport.drain();
                self.service = Some(state);
                bytes
            },
            None => Vec::new(),
        }
    }

    /// Whether `initialize` has bound the service.
    pub fn is_initialized(&self) -> (b: bool)
        ensures
            b == self@.bound is Some,
    {
        self.service.is_some()
    }

    /// Whether the guard is held.
    pub fn is_in_use(&self) -> (b: bool)
        ensures
            b == self@.in_use,
    {
        self.in_use
    }

    /// How many inbound bytes have not been read yet.
    pub fn pending_input(&self) -> (n: usize)
        ensures
            n == self@.inbound().len(),
    {
        match &self.service {
            Some(state) => state.transport.inbound_len(),
            None => 0,
        }
    }
}

/// What the unit posts is what the host picks up: after one post the host
/// reads the bytes that were pending, then exactly the posted bytes, and
/// nothing is left behind. This holds of messages of every length.
pub proof fn lemma_post_then_take<H>(s: ServiceView<H>, msg: Seq<u8>)
    requires
        s.bound is Some,
        !s.in_use,
    ensures
        s.post_message(msg).1 is Ok,
        s.post_message(msg).0.take_output().1 == s.outbound() + msg,
        s.outbound().len() == 0 ==> s.post_message(msg).0.take_output().1 == msg,
        s.post_message(msg).0.take_output().0.outbound() == Seq::<u8>::empty(),
{
    assert(Seq::<u8>::empty() + msg =~= msg);
}

/// Messages reach the host in the order in which they were posted.
pub proof fn lemma_posts_keep_order<H>(s: ServiceView<H>, first: Seq<u8>, second: Seq<u8>)
    requires
        s.bound is Some,
        !s.in_use,
    ensures
        s.post_message(first).0.post_message(second).1 is Ok,
        s.post_message(first).0.post_message(second).0.take_output().1 == s.outbound() + first
            + second,
{
}

/// Initializing creates an empty outbound target, and the cleanup option
/// alone decides whether teardown removes it: with cleanup the teardown
/// names the target's path for removal, without it names nothing.
pub proof fn lemma_cleanup_decides_removal<H>(s: ServiceView<H>, cleanup: bool, path: Seq<char>)
    requires
        !s.in_use,
    ensures
        s.initialize(cleanup, path, true).1 is Ok,
        s.initialize(cleanup, path, true).0.bound is Some,
        s.initialize(cleanup, path, true).0.outbound() == Seq::<u8>::empty(),
        s.initialize(cleanup, path, true).0.kill().0 == ServiceView::<H>::fresh(),
        s.initialize(cleanup, path, true).0.kill().1.remove == if cleanup {
            Some(path)
        } else {
            None
        },
{
}

/// Posting, feeding and picking up do not touch what teardown will remove.
pub proof fn lemma_traffic_keeps_teardown<H>(s: ServiceView<H>, bytes: Seq<u8>)
    ensures
        s.post_message(bytes).0.kill().1.remove == s.kill().1.remove,
        s.feed(bytes).0.kill().1.remove == s.kill().1.remove,
        s.take_output().0.kill().1.remove == s.kill().1.remove,
{
}

/// Without a handler, reading a message fails with `NotConnected`, and it
/// takes no more than one frame, the first bytes of the stream, with it.
pub proof fn lemma_unbound_on_message<H: Handler>(
    s: ServiceView<H>,
    after: ServiceView<H>,
    r: Result<usize, ServiceError>,
)
    requires
        s.on_message(after, r),
        s.handler is None,
        !s.in_use,
    ensures
        r == Err::<usize, ServiceError>(ServiceError::NotConnected),
        after.handler is None,
        s.inbound().len() - after.inbound().len() <= MAX_FRAME,
        after.inbound() == s.inbound().skip(s.inbound().len() - after.inbound().len()),
{
}

/// Reading a message takes at most one frame from the inbound stream and
/// writes nothing to the outbound target, whatever the handler does.
pub proof fn lemma_on_message_reads_one_frame<H: Handler>(
    s: ServiceView<H>,
    after: ServiceView<H>,
    r: Result<usize, ServiceError>,
)
    requires
        s.on_message(after, r),
    ensures
        after.outbound() == s.outbound(),
        after.teardown() == s.teardown(),
        s.inbound().len() - after.inbound().len() <= MAX_FRAME,
        after.inbound() == s.inbound().skip(s.inbound().len() - after.inbound().len()),
        r is Ok ==> r.unwrap() == s.inbound().len() - after.inbound().len(),
{
    assert(s.inbound().skip(0) =~= s.inbound());
}

} // verus!
