use patterns::command::using_fn_trait_objects;
use patterns::command::using_function_pointers;
use patterns::command::using_trait_objects::{AddField, CreateTable, Migration, Schema};

struct AddIndex;

impl Migration for AddIndex {
    fn execute(&self) -> &str {
        "add index"
    }

    fn rollback(&self) -> &str {
        "drop index"
    }
}

#[test]
fn migrations_name_their_statements() {
    assert_eq!(CreateTable.execute(), "create table");
    assert_eq!(CreateTable.rollback(), "drop table");
    assert_eq!(AddField.execute(), "add field");
    assert_eq!(AddField.rollback(), "remove field");
}

#[test]
fn trait_objects_execute_in_order_and_roll_back_in_reverse() {
    let mut schema = Schema::new();
    schema.add_migration(Box::new(CreateTable));
    schema.add_migration(Box::new(AddField));
    assert_eq!(schema.execute(), vec!["create table", "add field"]);
    assert_eq!(schema.rollback(), vec!["remove field", "drop table"]);
}

#[test]
fn trait_objects_take_migrations_of_the_callers_own() {
    let mut schema = Schema::new();
    schema.add_migration(Box::new(AddIndex));
    schema.add_migration(Box::new(CreateTable));
    schema.add_migration(Box::new(AddIndex));
    assert_eq!(schema.execute(), vec!["add index", "create table", "add index"]);
    assert_eq!(schema.rollback(), vec!["drop index", "drop table", "drop index"]);
}

#[test]
fn empty_schema_has_nothing_to_do() {
    let schema = Schema::new();
    assert!(schema.execute().is_empty());
    assert!(schema.rollback().is_empty());
}

#[test]
fn function_pointers_execute_in_order_and_roll_back_in_reverse() {
    let mut schema: using_function_pointers::Schema<fn() -> String, fn() -> String> =
        using_function_pointers::Schema::new();
    schema.add_migration(|| "create table".to_string(), || "drop table".to_string());
    schema.add_migration(using_function_pointers::add_field, using_function_pointers::remove_field);
    assert_eq!(schema.execute(), vec!["create table", "add field"]);
    assert_eq!(schema.rollback(), vec!["remove field", "drop table"]);
}

#[test]
fn function_pointer_statements() {
    assert_eq!(using_function_pointers::add_field(), "add field");
    assert_eq!(using_function_pointers::remove_field(), "remove field");
}

#[test]
fn fn_objects_execute_in_order_and_roll_back_in_reverse() {
    let mut schema: using_fn_trait_objects::Schema<
        Box<dyn Fn() -> &'static str>,
        Box<dyn Fn() -> &'static str>,
    > = using_fn_trait_objects::Schema::new();
    schema.add_migration(Box::new(|| "create table"), Box::new(|| "drop table"));
    schema.add_migration(
        Box::new(using_fn_trait_objects::add_field),
        Box::new(using_fn_trait_objects::remove_field),
    );
    assert_eq!(schema.execute(), vec!["create table", "add field"]);
    assert_eq!(schema.rollback(), vec!["remove field", "drop table"]);
}

#[test]
fn fn_object_statements() {
    assert_eq!(using_fn_trait_objects::add_field(), "add field");
    assert_eq!(using_fn_trait_objects::remove_field(), "remove field");
}
