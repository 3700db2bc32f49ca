use rust_tools::fixtures::{foo, is_send, surprise, Foo};

struct Bar {
    x: u64,
}

#[test]
fn test_fn() {
    let bar = Bar { x: 4 };
    println!("bar: {}", bar.x);
}

#[allow(dead_code)]
struct MacroAttributesTest {
    _foo: u32,
}

#[test]
fn macro_attributes_test() {
    let _ = MacroAttributesTest { _foo: 0 };
}

#[test]
fn fixtures_accept_their_inputs() {
    foo::<(), ()>(());
    is_send::<u32>();
    Foo::method();
    let v = 7u32;
    let f = Foo { x: &v };
    assert_eq!(*f.x, 7);
    let x = &(1, &2);
    let (_, &b) = x;
    surprise(b);
}
