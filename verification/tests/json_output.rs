use domain_resolver::{AsyncDomainResolver, Domain, DomainNames};

fn collect(records: Vec<(&str, bool)>) -> DomainNames {
    let mut names = DomainNames::new();
    for (name, resolved) in records {
        names.add(Domain::new(String::from(name), resolved));
    }
    names
}

/// The same document rendered by the reference pretty printer.
fn reference_pretty(records: &[(&str, bool)]) -> String {
    let mut array: Vec<serde_json::Value> = Vec::new();
    for (name, resolved) in records {
        let mut object = serde_json::Map::new();
        object.insert(
            String::from("name"),
            serde_json::Value::String(String::from(*name)),
        );
        object.insert(String::from("resolved"), serde_json::Value::Bool(*resolved));
        array.push(serde_json::Value::Object(object));
    }
    serde_json::to_string_pretty(&serde_json::Value::Array(array)).unwrap()
}

#[test]
fn empty_result_set_renders_an_empty_array() {
    let names = collect(Vec::new());
    assert_eq!(names.to_json(), "[]");
}

#[test]
fn one_record_renders_the_exact_document() {
    let names = collect(vec![("google.com", true)]);
    assert_eq!(
        names.to_json(),
        "[\n  {\n    \"name\": \"google.com\",\n    \"resolved\": true\n  }\n]"
    );
}

#[test]
fn control_characters_are_escaped_in_hexadecimal() {
    let names = collect(vec![("a\u{1}b", false)]);
    assert_eq!(
        names.to_json(),
        "[\n  {\n    \"name\": \"a\\u0001b\",\n    \"resolved\": false\n  }\n]"
    );
}

#[test]
fn rendering_agrees_with_the_reference_pretty_printer() {
    let cases: Vec<Vec<(&str, bool)>> = vec![
        vec![],
        vec![("google.com", true)],
        vec![("google.com", true), ("nosuchdomain.com", false)],
        vec![("with\"quote.com", false), ("back\\slash.com", true)],
        vec![("tab\there.com", false), ("line\nbreak.com", false)],
        vec![("bell\u{7}.com", false), ("esc\u{1b}.com", true), ("höhe.com", true)],
        vec![("last\u{1f}control.com", true), ("del\u{7f}char.com", false)],
    ];
    for records in &cases {
        let mine = collect(records.clone()).to_json();
        let reference = reference_pretty(records);
        assert_eq!(mine, reference, "disagreement on {:?}", records);
    }
}

#[test]
fn resolver_serializes_its_accumulated_results() {
    let mut r = AsyncDomainResolver::new(vec![
        String::from("one.com"),
        String::from("two.com"),
    ]);
    let batch = r.next_batch().unwrap();
    let results: Vec<Domain> = batch
        .into_iter()
        .map(|name| Domain::from_lookups(name, false, true))
        .collect();
    r.record_batch(results);
    assert_eq!(
        r.as_json(),
        reference_pretty(&[("one.com", true), ("two.com", true)])
    );
}
