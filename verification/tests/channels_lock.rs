use std::cell::RefCell;
use std::sync::Arc;

struct TestFunc {}

impl TestFunc {
    fn new() -> Self {
        Self {}
    }
    pub fn aaa(&mut self) {}
}

#[test]
fn channels_test_lock() {
    let channel = Arc::new(RefCell::new(TestFunc::new()));
    channel.borrow_mut().aaa();
}

#[test]
fn mod_test_lock() {
    let channel = Arc::new(RefCell::new(TestFunc::new()));
    channel.borrow_mut().aaa();
}
