use mqtt_kafka_forwarding_service::template::{parse_config, referenced_names};

fn env(pairs: &[(&str, &str)]) -> Vec<(String, String)> {
    pairs.iter().map(|(k, v)| (k.to_string(), v.to_string())).collect()
}

#[test]
fn placeholder_is_replaced_by_the_variable() {
    let rendered = parse_config("host: ${BROKER_HOST}", &env(&[("BROKER_HOST", "example.net")]));
    assert_eq!(rendered, "host: example.net");
}

#[test]
fn unset_variable_renders_as_empty_string() {
    assert_eq!(parse_config("host: ${BROKER_HOST}", &[]), "host: ");
    assert_eq!(parse_config("host: ${BROKER_HOST}", &env(&[("OTHER", "x")])), "host: ");
}

#[test]
fn text_without_placeholders_is_unchanged() {
    let text = "mqtt:\n  host: localhost\n  port: 1883\nprice: $5 {a} $ { }\n";
    assert_eq!(parse_config(text, &env(&[("a", "b")])), text);
    assert_eq!(parse_config("", &[]), "");
    assert_eq!(referenced_names(text), Vec::<String>::new());
}

#[test]
fn every_occurrence_is_replaced() {
    let rendered = parse_config("${A}-${B}-${A}", &env(&[("A", "1"), ("B", "22")]));
    assert_eq!(rendered, "1-22-1");
}

#[test]
fn placeholder_that_does_not_close_on_its_line_stays() {
    let text = "a: ${OPEN\nb: ${B}\n";
    assert_eq!(parse_config(text, &env(&[("OPEN", "x"), ("B", "y")])), "a: ${OPEN\nb: y\n");
    assert_eq!(parse_config("tail ${", &[]), "tail ${");
    assert_eq!(parse_config("tail ${NAME", &env(&[("NAME", "v")])), "tail ${NAME");
    assert_eq!(parse_config("$", &[]), "$");
}

#[test]
fn dollar_before_a_placeholder_stays() {
    assert_eq!(parse_config("$${A}", &env(&[("A", "v")])), "$v");
}

#[test]
fn name_runs_to_the_first_closing_brace() {
    let environment = env(&[("A", "a"), ("B", "b"), ("A${B", "odd")]);
    assert_eq!(parse_config("${A${B}}", &environment), "odd}");
    assert_eq!(referenced_names("${A${B}}"), vec!["A${B".to_string()]);
}

#[test]
fn empty_name_is_a_placeholder() {
    assert_eq!(parse_config("x${}y", &[]), "xy");
    assert_eq!(referenced_names("x${}y"), vec![String::new()]);
}

#[test]
fn values_are_not_rendered_again() {
    let environment = env(&[("A", "${B}"), ("B", "b")]);
    assert_eq!(parse_config("${A} ${B}", &environment), "${B} b");
}

#[test]
fn later_binding_of_a_name_wins() {
    assert_eq!(parse_config("${A}", &env(&[("A", "first"), ("A", "second")])), "second");
}

#[test]
fn names_are_case_sensitive_and_may_be_unicode() {
    let environment = env(&[("a", "lower"), ("A", "upper"), ("\u{e9}t\u{e9}", "summer")]);
    assert_eq!(parse_config("${a}${A}${\u{e9}t\u{e9}}\u{1f600}", &environment), "lowerupper\
summer\u{1f600}");
}

#[test]
fn referenced_names_lists_each_placeholder_in_order() {
    let text = "a: ${ONE}\nb: ${TWO} ${ONE}\nc: ${OPEN\nd: ${THREE}";
    assert_eq!(
        referenced_names(text),
        vec!["ONE".to_string(), "TWO".to_string(), "ONE".to_string(), "THREE".to_string()]
    );
}

#[test]
fn rendering_a_whole_config() {
    let text = "mqtt:\n  host: ${MQTT_HOST}\n  port: 8883\n  client_id: '${CLIENT}'\nkafka:\n  \
bootstrap_server: ${KAFKA}\n";
    let environment = env(&[("MQTT_HOST", "mqtt.example.net"), ("KAFKA", "kafka-0")]);
    assert_eq!(
        parse_config(text, &environment),
        "mqtt:\n  host: mqtt.example.net\n  port: 8883\n  client_id: ''\nkafka:\n  \
bootstrap_server: kafka-0\n"
    );
}
