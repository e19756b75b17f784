//! A messenger without awaited routes may keep its state in a `RefCell`.
use std::cell::RefCell;

use soulrust::messenger::direct::{SyncMessengerRoute, SyncSender};

struct Cli;
struct Push(u32);

#[derive(Default)]
struct Stack {
    items: RefCell<Vec<u32>>,
}

impl Stack {
    fn handle(&self, msg: &Push, _router: &DirectMessenger) -> usize {
        self.items.borrow_mut().push(msg.0);
        self.items.borrow().len()
    }
}

#[derive(Default)]
struct DirectMessenger {
    stack: Stack,
}

impl SyncSender<Push, DirectMessenger, usize> for Cli {
    fn send(message: &Push, router: &DirectMessenger) -> usize {
        SyncMessengerRoute::<Cli, Push, usize>::route(router, message)
    }
}

impl SyncMessengerRoute<Cli, Push, usize> for DirectMessenger {
    fn route(&self, message: &Push) -> usize {
        self.stack.handle(message, self)
    }
}

#[test]
fn sync_only_messenger_allows_refcell_state() {
    let router = DirectMessenger::default();

    let after_first = <Cli as SyncSender<Push, DirectMessenger, usize>>::send(&Push(10), &router);
    let after_second = <Cli as SyncSender<Push, DirectMessenger, usize>>::send(&Push(20), &router);

    assert_eq!(after_first, 1);
    assert_eq!(after_second, 2);
    assert_eq!(*router.stack.items.borrow(), vec![10, 20]);
}
