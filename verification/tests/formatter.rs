use patterns::formatter::{Data, Formatter, Json, Report, Text};

fn data(entries: &[(&str, u32)]) -> Data {
    let mut d = Data::new();
    for (k, v) in entries {
        d.insert(k.to_string(), *v);
    }
    d
}

fn render<F: Formatter>(f: F, d: &Data) -> String {
    let mut s = String::new();
    f.format(d, &mut s);
    s
}

/// A format of the caller's own.
struct Count;

impl Formatter for Count {
    fn format(&self, data: &Data, buf: &mut String) {
        buf.push_str(&format!("{} entries", data.len()));
    }
}

#[test]
fn json_of_nothing_is_the_empty_list() {
    assert_eq!(render(Json, &Data::new()), "[]");
}

#[test]
fn json_of_one_entry_has_no_separator() {
    assert_eq!(render(Json, &data(&[("one", 1)])), "[{\"one\":\"1\"}]");
}

#[test]
fn json_of_two_entries_has_one_separator() {
    assert_eq!(render(Json, &data(&[("one", 1), ("two", 2)])), "[{\"one\":\"1\"},{\"two\":\"2\"}]");
}

#[test]
fn json_holds_every_pair_once_and_ends_without_separator() {
    let out = render(Json, &data(&[("one", 1), ("two", 2)]));
    assert!(out.starts_with('[') && out.ends_with("}]"));
    assert!(!out.contains(",]"));
    assert_eq!(out.matches("{\"one\":\"1\"}").count(), 1);
    assert_eq!(out.matches("{\"two\":\"2\"}").count(), 1);
    assert_eq!(out.matches(',').count(), 1);
}

#[test]
fn json_appends_to_the_buffer() {
    let mut s = String::from("x=");
    Json.format(&data(&[("k", 4294967295)]), &mut s);
    assert_eq!(s, "x=[{\"k\":\"4294967295\"}]");
}

#[test]
fn text_of_nothing_is_empty() {
    assert_eq!(render(Text, &Data::new()), "");
}

#[test]
fn text_has_one_line_for_each_key() {
    let out = render(Text, &data(&[("one", 1), ("two", 2), ("three", 30)]));
    assert_eq!(out, "one 1\ntwo 2\nthree 30\n");
    assert_eq!(out.lines().count(), 3);
    for line in ["one 1", "two 2", "three 30"] {
        assert_eq!(out.lines().filter(|l| *l == line).count(), 1);
    }
}

#[test]
fn text_appends_to_the_buffer() {
    let mut s = String::from("head\n");
    Text.format(&data(&[("zero", 0)]), &mut s);
    assert_eq!(s, "head\nzero 0\n");
}

#[test]
fn report_in_text() {
    let mut s = String::from("");
    Report::generate(Text, &mut s);
    assert_eq!(s, "one 1\ntwo 2\n");
}

#[test]
fn report_in_json() {
    let mut s = String::from("");
    Report::generate(Json, &mut s);
    assert_eq!(s, "[{\"one\":\"1\"},{\"two\":\"2\"}]");
}

#[test]
fn report_twice_on_a_cleared_buffer() {
    let mut s = String::from("");
    Report::generate(Text, &mut s);
    assert_eq!(s, "one 1\ntwo 2\n");
    s.clear();
    Report::generate(Json, &mut s);
    assert_eq!(s, "[{\"one\":\"1\"},{\"two\":\"2\"}]");
    s.clear();
    Report::generate(Text, &mut s);
    assert_eq!(s, "one 1\ntwo 2\n");
}

#[test]
fn report_in_a_format_of_the_callers_own() {
    let mut s = String::from("report: ");
    Report::generate(Count, &mut s);
    assert_eq!(s, "report: 2 entries");
}

#[test]
fn insert_of_a_new_key_goes_to_the_end() {
    let mut d = Data::new();
    assert!(d.is_empty());
    assert_eq!(d.insert(String::from("b"), 2), None);
    assert_eq!(d.insert(String::from("a"), 1), None);
    assert_eq!(d.len(), 2);
    assert!(!d.is_empty());
    assert_eq!((d.key(0), d.value(0)), ("b", 2));
    assert_eq!((d.key(1), d.value(1)), ("a", 1));
}

#[test]
fn insert_of_a_known_key_replaces_its_value_in_place() {
    let mut d = data(&[("one", 1), ("two", 2)]);
    assert_eq!(d.insert(String::from("one"), 11), Some(1));
    assert_eq!(d.len(), 2);
    assert_eq!(render(Text, &d), "one 11\ntwo 2\n");
}
