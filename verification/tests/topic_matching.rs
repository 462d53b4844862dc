use mqtt_kafka_forwarding_service::topic::{matching_topics, mqtt_filter_matches, TopicMatch};

fn topic_rule(filter: &str, kafka: &str, wrap: bool) -> TopicMatch {
    TopicMatch {
        mqtt_topic: filter.to_string(),
        kafka_topic: kafka.to_string(),
        wrap_as_json: wrap,
    }
}

#[test]
fn multi_level_wildcard_alone_matches_every_plain_topic() {
    assert!(mqtt_filter_matches("#", "a"));
    assert!(mqtt_filter_matches("#", "a/b/c"));
    assert!(mqtt_filter_matches("#", ""));
    assert!(mqtt_filter_matches("#", "/"));
    assert!(mqtt_filter_matches("#", "été/météo"));
}

#[test]
fn single_level_wildcard_matches_exactly_one_level() {
    assert!(mqtt_filter_matches("a/+/c", "a/x/c"));
    assert!(!mqtt_filter_matches("a/+/c", "a/x/y/c"));
    assert!(!mqtt_filter_matches("a/+/c", "a/c"));
    assert!(mqtt_filter_matches("a/+/c", "a//c"));
    assert!(mqtt_filter_matches("+", "a"));
    assert!(!mqtt_filter_matches("+", "a/b"));
}

#[test]
fn multi_level_wildcard_matches_parent_and_descendants() {
    assert!(mqtt_filter_matches("a/#", "a"));
    assert!(mqtt_filter_matches("a/#", "a/x/y"));
    assert!(mqtt_filter_matches("a/#", "a/"));
    assert!(!mqtt_filter_matches("a/#", "b"));
    assert!(!mqtt_filter_matches("a/#", "ab"));
}

#[test]
fn literal_filter_matches_only_itself() {
    assert!(mqtt_filter_matches("a/b", "a/b"));
    assert!(!mqtt_filter_matches("a/b", "a/b/c"));
    assert!(!mqtt_filter_matches("a/b/c", "a/b"));
    assert!(!mqtt_filter_matches("a/b", "a/B"));
    assert!(mqtt_filter_matches("", ""));
    assert!(!mqtt_filter_matches("", "a"));
}

#[test]
fn reserved_topics_match_no_filter() {
    assert!(!mqtt_filter_matches("#", "$SYS/uptime"));
    assert!(!mqtt_filter_matches("+/uptime", "$SYS/uptime"));
    assert!(!mqtt_filter_matches("$SYS/#", "$SYS/uptime"));
    assert!(!mqtt_filter_matches("$SYS/uptime", "$SYS/uptime"));
    assert!(mqtt_filter_matches("a/$SYS", "a/$SYS"));
}

#[test]
fn topic_level_that_is_a_wildcard_is_matched_by_multi_level_only() {
    assert!(!mqtt_filter_matches("a/+", "a/#"));
    assert!(mqtt_filter_matches("a/#", "a/#"));
    assert!(mqtt_filter_matches("a/+", "a/+"));
}

#[test]
fn matching_agrees_with_the_mqtt_client_library() {
    let topics = [
        "", "a", "a/", "/a", "a/b", "a/b/c", "a//c", "a/x/c", "a/x/y/c", "$SYS/uptime", "$", "#",
        "+", "a/#", "a/+", "sensors/kitchen/temp", "/", "//", "a/b/", "ab",
    ];
    let filters = [
        "", "#", "+", "a", "a/#", "a/+", "a/+/c", "+/+", "+/#", "a/b", "a/b/#", "/", "/#", "#/a",
        "+/b/+", "$SYS/#", "sensors/+/temp", "a//c", "//", "a/b/",
    ];
    for topic in topics {
        for filter in filters {
            assert_eq!(
                mqtt_filter_matches(filter, topic),
                rumqttc::matches(topic, filter),
                "filter {:?}, topic {:?}",
                filter,
                topic
            );
        }
    }
}

#[test]
fn matching_topics_keeps_rule_order() {
    let rules = vec![
        topic_rule("a/#", "K1", false),
        topic_rule("b/#", "K0", false),
        topic_rule("a/b", "K2", true),
        topic_rule("+/b", "K3", false),
    ];
    let matching = matching_topics("a/b", &rules);
    assert_eq!(
        matching,
        vec![topic_rule("a/#", "K1", false), topic_rule("a/b", "K2", true), topic_rule("+/b", "K3", false)]
    );
}

#[test]
fn matching_topics_of_no_rules_is_empty() {
    assert_eq!(matching_topics("a/b", &[]), Vec::<TopicMatch>::new());
    assert_eq!(matching_topics("c", &[topic_rule("a/#", "K1", false)]), Vec::<TopicMatch>::new());
}
