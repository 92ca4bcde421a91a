use gui_core::sys::unique_resource::{ResourceDeleter, UniqueResource};

/// Counts how many handles it released.
#[derive(Default)]
struct CountingDeleter {
    released: u32,
}

impl ResourceDeleter for CountingDeleter {
    type Handle = i32;

    // the model of `is_null` that the library's contracts speak of
    fn spec_is_null(res: &i32) -> bool {
        *res < 0
    }

    fn is_null(res: &i32) -> bool {
        *res < 0
    }

    fn null() -> i32 {
        -1
    }

    fn delete(&mut self, res: &mut i32) {
        self.released += 1;
        *res = -1;
    }
}

#[test]
fn null_handles_are_not_owned() {
    assert!(UniqueResource::<CountingDeleter>::from_handle(CountingDeleter::null()).is_none());
    assert!(UniqueResource::<CountingDeleter>::from_handle(-5).is_none());
}

#[test]
fn owned_handle_is_released() {
    let r = UniqueResource::from_state_handle(3, CountingDeleter { released: 0 }).unwrap();
    assert_eq!(*r.handle(), 3);
    r.release();
    let r = UniqueResource::<CountingDeleter>::from_handle(0).unwrap();
    assert_eq!(*r.handle(), 0);
    r.release();
}
