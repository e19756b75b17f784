//! Routes that answer at once and a route that is awaited, in one messenger.
use std::future::Future;
use std::pin::Pin;
use std::sync::atomic::{AtomicBool, AtomicU32, Ordering};
use std::sync::Arc;
use std::task::{Context, Poll, Wake, Waker};

use soulrust::messenger::direct::{MessengerRoute, Sender, SyncMessengerRoute, SyncSender};

struct Web;
struct Clock;
struct Api;

struct Add(u32);
struct Tick;
struct Echo(String);

#[derive(Default)]
struct Adder {
    total: AtomicU32,
}

impl Adder {
    fn handle(&self, msg: &Add, _router: &DirectMessenger) -> u32 {
        self.total.fetch_add(msg.0, Ordering::Relaxed) + msg.0
    }
}

#[derive(Default)]
struct Logger {
    ticked: AtomicBool,
}

impl Logger {
    fn handle(&self, _msg: &Tick, _router: &DirectMessenger) {
        self.ticked.store(true, Ordering::Relaxed);
    }
}

#[derive(Default)]
struct Audit {
    ticked: AtomicBool,
}

impl Audit {
    fn handle(&self, _msg: &Tick, _router: &DirectMessenger) {
        self.ticked.store(true, Ordering::Relaxed);
    }
}

#[derive(Default)]
struct Echoer {
    calls: AtomicU32,
}

impl Echoer {
    fn handle(&self, msg: &Echo, _router: &DirectMessenger) -> Answer {
        self.calls.fetch_add(1, Ordering::Relaxed);
        let text = msg.0.clone();
        Box::pin(async move { text })
    }
}

type Answer = Pin<Box<dyn Future<Output = String> + Send>>;

#[derive(Default)]
struct DirectMessenger {
    adder: Adder,
    logger: Logger,
    audit: Audit,
    echoer: Echoer,
}

impl SyncSender<Add, DirectMessenger, u32> for Web {
    fn send(message: &Add, router: &DirectMessenger) -> u32 {
        SyncMessengerRoute::<Web, Add, u32>::route(router, message)
    }
}

impl SyncMessengerRoute<Web, Add, u32> for DirectMessenger {
    fn route(&self, message: &Add) -> u32 {
        self.adder.handle(message, self)
    }
}

impl SyncSender<Tick, DirectMessenger> for Clock {
    fn send(message: &Tick, router: &DirectMessenger) {
        SyncMessengerRoute::<Clock, Tick>::route(router, message)
    }
}

impl SyncMessengerRoute<Clock, Tick> for DirectMessenger {
    fn route(&self, message: &Tick) {
        self.logger.handle(message, self);
        self.audit.handle(message, self)
    }
}

impl Sender<Echo, DirectMessenger, String> for Api {
    type Reply = Answer;

    fn send(message: &Echo, router: &DirectMessenger) -> Answer {
        MessengerRoute::<Api, Echo, String>::route(router, message)
    }
}

impl MessengerRoute<Api, Echo, String> for DirectMessenger {
    type Reply = Answer;

    fn route(&self, message: &Echo) -> Answer {
        self.echoer.handle(message, self)
    }
}

struct Noop;

impl Wake for Noop {
    fn wake(self: Arc<Self>) {}
}

fn block_on<F: Future>(future: F) -> F::Output {
    let waker = Waker::from(Arc::new(Noop));
    let mut cx = Context::from_waker(&waker);
    let mut future = Box::pin(future);
    loop {
        if let Poll::Ready(value) = future.as_mut().poll(&mut cx) {
            return value;
        }
    }
}

#[test]
fn sync_one_to_one_route_returns_the_handler_output() {
    let router = DirectMessenger::default();

    let first = <Web as SyncSender<Add, DirectMessenger, u32>>::send(&Add(3), &router);
    let second = <Web as SyncSender<Add, DirectMessenger, u32>>::send(&Add(4), &router);

    assert_eq!(first, 3);
    assert_eq!(second, 7);
}

#[test]
fn sync_fan_out_route_reaches_every_receiver() {
    let router = DirectMessenger::default();

    <Clock as SyncSender<Tick, DirectMessenger>>::send(&Tick, &router);

    assert!(router.logger.ticked.load(Ordering::Relaxed));
    assert!(router.audit.ticked.load(Ordering::Relaxed));
}

#[test]
fn async_one_to_one_route_returns_the_handler_output() {
    let router = DirectMessenger::default();

    let echoed = block_on(<Api as Sender<Echo, DirectMessenger, String>>::send(
        &Echo("ping".to_owned()),
        &router,
    ));

    assert_eq!(echoed, "ping");
    assert_eq!(router.echoer.calls.load(Ordering::Relaxed), 1);
}
