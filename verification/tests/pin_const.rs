use core::pin::Pin;

#[test]
fn pin_const() {
    // The safe methods of `Pin` on a shared reference round-trip the
    // pointer.
    let pointer: &'static usize = &2;

    let pinned: Pin<&'static usize> = Pin::new(pointer);

    let inner: &'static usize = Pin::into_inner(pinned);
    assert_eq!(inner, pointer);

    let reference: &'static usize = pinned.get_ref();
    assert_eq!(reference, pointer);

    assert_eq!(*reference, 2);
}
