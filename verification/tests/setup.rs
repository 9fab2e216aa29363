use std::cell::Cell;
use std::rc::Rc;

use vilya::casket::Casket;
use vilya::runtime::{Initializer, Runtime, DEFAULT_ENTRIES};

struct Bell {
    rung: Rc<Cell<u32>>,
}

impl Drop for Bell {
    fn drop(&mut self) {
        self.rung.set(self.rung.get() + 1);
    }
}

#[test]
fn rings_are_built_by_default_unless_told_otherwise() {
    let mut initializer: Initializer<fn(u32) -> u32> = Initializer::new();
    assert!(initializer.is_unused());
    assert_eq!(initializer.initialize(|entries: u32| entries + 1, DEFAULT_ENTRIES), 0x401);
    assert!(!initializer.is_unused());
    assert!(initializer.has_room());
}

#[test]
fn a_custom_initializer_takes_over() {
    let mut initializer: Initializer<Box<dyn Send + Fn(u32) -> String>> = Initializer::new();
    Runtime::<String>::set_init(&mut initializer, Box::new(|n| format!("ring {}", n)));
    assert!(initializer.is_unused());
    Runtime::<String>::set_init(&mut initializer, Box::new(|n| format!("custom {}", n)));
    let mut runtime = Runtime::new(&mut initializer, |n: u32| format!("default {}", n), 8);
    assert_eq!(*runtime.uring_mut(), "custom 8");
    assert!(!initializer.is_unused());
    let mut runtime = Runtime::new(&mut initializer, |n: u32| format!("default {}", n), 9);
    assert_eq!(*runtime.uring_mut(), "custom 9");
}

#[test]
fn caskets_give_access_to_their_value() {
    let mut casket = Casket::new(vec![1, 2, 3]);
    casket.deref_mut().push(4);
    assert_eq!(casket.len(), 4);
    assert_eq!(*casket, vec![1, 2, 3, 4]);
    assert_eq!(casket.into_dropped(), Some(vec![1, 2, 3, 4]));
}

#[test]
fn caskets_drop_their_value_once() {
    let rung = Rc::new(Cell::new(0));
    let casket = Casket::new(Bell { rung: rung.clone() });
    assert_eq!(rung.get(), 0);
    drop(casket);
    assert_eq!(rung.get(), 1);
    let casket = Casket::new(Bell { rung: rung.clone() });
    let out = casket.into_dropped();
    assert!(out.is_some());
    assert_eq!(rung.get(), 1);
    drop(out);
    assert_eq!(rung.get(), 2);
}

#[test]
fn values_without_drop_just_end() {
    assert_eq!(Casket::new(5u32).into_dropped(), None);
    assert_eq!(Casket::with_drop(true, 5u32).into_dropped(), Some(5));
    assert_eq!(Casket::with_drop(false, 5u32).into_dropped(), None);
}
