use patterns::builder::{Foo, FooBuilder};

#[test]
fn builds_with_the_name_given() {
    let foo = FooBuilder::new().name(String::from("Y")).build();
    assert_eq!(format!("{:?}", foo), "Foo { bar: \"Y\" }");
}

#[test]
fn builds_with_the_empty_name_when_none_is_given() {
    assert_eq!(format!("{:?}", FooBuilder::new().build()), "Foo { bar: \"\" }");
    assert_eq!(format!("{:?}", Foo::builder().build()), "Foo { bar: \"\" }");
    assert_eq!(format!("{:?}", FooBuilder::default().build()), "Foo { bar: \"\" }");
}

#[test]
fn the_last_name_given_wins() {
    let foo = Foo::builder().name(String::from("X")).name(String::from("Z")).build();
    assert_eq!(format!("{:?}", foo), "Foo { bar: \"Z\" }");
}
