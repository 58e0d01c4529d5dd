use std::sync::Arc;
use std::sync::Mutex;

use gawk::DynHandle;
use gawk::DynHandleMut;
use gawk::Event;
use gawk::Handle;
use gawk::HandleMut;
use gawk::Publisher;

#[derive(Clone)]
struct TestEvent;

impl Event for TestEvent {
    fn tag_spec() -> u64 {
        1
    }
    fn type_tag() -> u64 {
        1
    }
}

#[derive(Clone)]
struct UnrelatedEvent;

impl Event for UnrelatedEvent {
    fn tag_spec() -> u64 {
        2
    }
    fn type_tag() -> u64 {
        2
    }
}

struct TestHandler {
    called: Arc<Mutex<bool>>,
}

impl DynHandle for TestHandler {
    fn bound_tag(&self) -> u64 {
        1
    }
    fn erased_tag(&self) -> u64 {
        1
    }
    fn dyn_handle<E: Event>(&self, _event: &E) -> bool {
        let mut called = self.called.lock().unwrap();
        *called = true;
        true
    }
}

struct TestHandlerMut {
    called: Arc<Mutex<bool>>,
}

impl DynHandleMut for TestHandlerMut {
    fn bound_tag(&self) -> u64 {
        1
    }
    fn erased_tag(&self) -> u64 {
        1
    }
    fn dyn_handle_mut<E: Event>(&mut self, _event: &E) -> bool {
        let mut called = self.called.lock().unwrap();
        *called = true;
        true
    }
}

struct CountingHandle {
    count: Arc<Mutex<u32>>,
}

impl Handle for CountingHandle {
    type EventType = TestEvent;
    fn handle(&self, _event: TestEvent) {
        *self.count.lock().unwrap() += 1;
    }
}

struct CounterHandler {
    count: u32,
}

impl HandleMut for CounterHandler {
    type EventType = TestEvent;
    fn handle_mut(&mut self, _event: TestEvent) {
        self.count += 1;
    }
}

#[test]
fn test_subscribe_with_and_publish() {
    let mut publisher = Publisher::default();
    let called = Arc::new(Mutex::new(false));
    let handler = TestHandler {
        called: called.clone(),
    };
    publisher.subscribe(&handler);
    let event = TestEvent;
    let plan = publisher.publish(&event);
    for _id in plan.shared.iter() {
        handler.dyn_handle(&event);
    }
    assert!(*called.lock().unwrap());
}

#[test]
fn test_subscribe_and_publish() {
    let mut publisher = Publisher::default();
    let called = Arc::new(Mutex::new(false));
    let handler = TestHandler {
        called: called.clone(),
    };
    publisher.subscribe(&handler);
    let event = TestEvent;
    let plan = publisher.publish(&event);
    for _id in plan.shared.iter() {
        handler.dyn_handle(&event);
    }
    assert!(*called.lock().unwrap());
}

#[test]
fn test_unsubscribe() {
    let mut publisher = Publisher::default();
    let called = Arc::new(Mutex::new(false));
    let handler = TestHandler {
        called: called.clone(),
    };
    let id = publisher.subscribe(&handler);
    publisher.unsubscribe(id);
    let event = TestEvent;
    let plan = publisher.publish(&event);
    for _id in plan.shared.iter() {
        handler.dyn_handle(&event);
    }
    assert!(!*called.lock().unwrap());
}

#[test]
fn test_subscribe_mut_and_publish() {
    let mut publisher = Publisher::default();
    let called = Arc::new(Mutex::new(false));
    let mut handler = TestHandlerMut {
        called: called.clone(),
    };
    publisher.subscribe_mut(&handler);
    let event = TestEvent;
    let plan = publisher.publish(&event);
    for _id in plan.exclusive.iter() {
        handler.dyn_handle_mut(&event);
    }
    assert!(*called.lock().unwrap());
}

#[test]
fn test_unsubsribe_mut() {
    let mut publisher = Publisher::default();
    let called = Arc::new(Mutex::new(false));
    let mut handler = TestHandlerMut {
        called: called.clone(),
    };
    let id = publisher.subscribe_mut(&handler);
    publisher.unsubscribe_mut(id);
    let event = TestEvent;
    let plan = publisher.publish(&event);
    for _id in plan.exclusive.iter() {
        handler.dyn_handle_mut(&event);
    }
    assert!(!*called.lock().unwrap());
}

#[test]
fn test_publish_to_both_handler_types() {
    let mut publisher = Publisher::default();
    let called = Arc::new(Mutex::new(false));
    let called_mut = Arc::new(Mutex::new(false));
    let handler = TestHandler {
        called: called.clone(),
    };
    let mut handler_mut = TestHandlerMut {
        called: called_mut.clone(),
    };
    publisher.subscribe(&handler);
    publisher.subscribe_mut(&handler_mut);
    let event = TestEvent;
    let plan = publisher.publish(&event);
    for _id in plan.shared.iter() {
        handler.dyn_handle(&event);
    }
    for _id in plan.exclusive.iter() {
        handler_mut.dyn_handle_mut(&event);
    }
    assert!(*called.lock().unwrap());
    assert!(*called_mut.lock().unwrap());
}

#[test]
fn test_matching_handler_invoked_exactly_once() {
    let mut publisher = Publisher::default();
    let count = Arc::new(Mutex::new(0u32));
    let handler = CountingHandle {
        count: count.clone(),
    };
    publisher.subscribe(&handler);

    let unrelated = UnrelatedEvent;
    let plan = publisher.publish(&unrelated);
    assert_eq!(plan.shared.len(), 0);
    for _id in plan.shared.iter() {
        handler.dyn_handle(&unrelated);
    }
    assert_eq!(*count.lock().unwrap(), 0);

    let event = TestEvent;
    let plan = publisher.publish(&event);
    assert_eq!(plan.shared.len(), 1);
    for _id in plan.shared.iter() {
        handler.dyn_handle(&event);
    }
    assert_eq!(*count.lock().unwrap(), 1);
}

#[test]
fn test_subscription_ids_strictly_increase() {
    let mut publisher = Publisher::default();
    let called = Arc::new(Mutex::new(false));
    let handler = TestHandler {
        called: called.clone(),
    };
    let first = publisher.subscribe(&handler);
    let second = publisher.subscribe(&handler);
    assert_eq!(first, 1);
    assert_eq!(second, 2);
    publisher.unsubscribe(second);
    let third = publisher.subscribe(&handler);
    assert_eq!(third, 3);
    assert!(first < second && second < third);
}

#[test]
fn test_unsubscribe_unknown_id_is_noop() {
    let mut publisher = Publisher::default();
    let called = Arc::new(Mutex::new(false));
    let handler = TestHandler {
        called: called.clone(),
    };
    publisher.subscribe(&handler);
    publisher.unsubscribe(77);
    let event = TestEvent;
    let plan = publisher.publish(&event);
    assert_eq!(plan.shared.len(), 1);
}

#[test]
fn test_subscribe_with_closure_receives_event() {
    let mut publisher = Publisher::default();
    let seen = Arc::new(Mutex::new(None));
    let seen_clone = seen.clone();
    let (id, handler) = publisher.subscribe_with(move |_event: TestEvent| {
        *seen_clone.lock().unwrap() = Some(7u32);
    });
    assert_eq!(id, 1);
    let event = TestEvent;
    let plan = publisher.publish(&event);
    for _id in plan.shared.iter() {
        handler.dyn_handle(&event);
    }
    assert_eq!(*seen.lock().unwrap(), Some(7u32));
}

#[test]
fn test_mutating_handler_counts_every_publish() {
    let mut publisher = Publisher::default();
    let mut handler = CounterHandler { count: 0 };
    publisher.subscribe_mut(&handler);
    let event = TestEvent;
    let rounds: u32 = 5;
    for _ in 0..rounds {
        let plan = publisher.publish(&event);
        assert_eq!(plan.exclusive.len(), 1);
        for _id in plan.exclusive.iter() {
            handler.dyn_handle_mut(&event);
        }
    }
    assert_eq!(handler.count, rounds);
}
