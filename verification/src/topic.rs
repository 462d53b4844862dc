//! MQTT topic filters: which topics a filter with the wildcards `+` and
//! `#` matches, and which forwarding rules apply to a topic.

use vstd::prelude::*;
use crate::config::ForwardingConfig;
use crate::text::{chars_of, same_chars};

verus! {

/// The levels of a topic or filter: the pieces between its slashes. The
/// empty string has one empty level.
pub open spec fn levels(s: Seq<char>) -> Seq<Seq<char>>
    decreases s.len(),
{
    if s.len() == 0 {
        seq![Seq::<char>::empty()]
    } else if s.last() == '/' {
        levels(s.drop_last()).push(Seq::<char>::empty())
    } else {
        let before = levels(s.drop_last());
        before.drop_last().push(before.last().push(s.last()))
    }
}

/// The level that matches any one level.
pub open spec fn single_level_wildcard() -> Seq<char> {
    seq!['+']
}

/// The level that matches all that follows.
pub open spec fn multi_level_wildcard() -> Seq<char> {
    seq!['#']
}

/// Whether the filter levels `filter` match the topic levels `topic`:
/// `#` matches whatever is left of the topic, also nothing; `+` matches
/// one level; any other level matches itself. A topic level `#` is
/// matched by `#` alone.
pub open spec fn levels_match(topic: Seq<Seq<char>>, filter: Seq<Seq<char>>) -> bool
    decreases filter.len(),
{
    if filter.len() == 0 {
        topic.len() == 0
    } else if filter[0] == multi_level_wildcard() {
        true
    } else {
        &&& topic.len() > 0
        &&& topic[0] != multi_level_wildcard()
        &&& filter[0] == single_level_wildcard() || filter[0] == topic[0]
        &&& levels_match(topic.drop_first(), filter.drop_first())
    }
}

/// Whether the topic filter `filter` matches the topic `topic`. A topic
/// that begins with `$` is reserved to the broker and matches no filter.
pub open spec fn filter_matches(filter: Seq<char>, topic: Seq<char>) -> bool {
    &&& !(topic.len() > 0 && topic[0] == '$')
    &&& levels_match(levels(topic), levels(filter))
}

/// The levels of `s` as vectors: `split[i]@` is `levels(s@)[i]`.
spec fn split_is_levels(split: Seq<Vec<char>>, s: Seq<char>) -> bool {
    split.map_values(|level: Vec<char>| level@) == levels(s)
}

fn split_levels(s: &[char]) -> (split: Vec<Vec<char>>)
    ensures
        split_is_levels(split@, s@),
{
    let mut split: Vec<Vec<char>> = Vec::new();
    let mut current: Vec<char> = Vec::new();
    let mut i: usize = 0;
    assert(s@.take(0) == Seq::<char>::empty());
    while i < s.len()
        invariant
            i <= s.len(),
            split@.map_values(|level: Vec<char>| level@).push(current@) == levels(
                s@.take(i as int),
            ),
        decreases s.len() - i,
    {
        let ghost before = s@.take(i as int);
        let ghost done = split@.map_values(|level: Vec<char>| level@);
        assert(s@.take(i + 1).drop_last() == before);
        assert(done.push(current@).drop_last() == done);
        if s[i] == '/' {
            split.push(current);
            current = Vec::new();
            assert(split@.map_values(|level: Vec<char>| level@) == done.push(
                levels(before).last(),
            ));
        } else {
            current.push(s[i]);
        }
        i += 1;
    }
    assert(s@.take(s.len() as int) == s@);
    let ghost done = split@.map_values(|level: Vec<char>| level@);
    split.push(current);
    assert(split@.map_values(|level: Vec<char>| level@) == done.push(current@));
    split
}

fn is_wildcard(level: &[char], wildcard: char) -> (is: bool)
    ensures
        is == (level@ == seq![wildcard]),
{
    let is = level.len() == 1 && level[0] == wildcard;
    assert(is ==> level@ == seq![wildcard]);
    is
}

/// Whether the topic filter `filter` matches the topic `topic`.
pub fn mqtt_filter_matches(filter: &str, topic: &str) -> (matches: bool)
    ensures
        matches == filter_matches(filter@, topic@),
{
    let topic_chars = chars_of(topic);
    if topic_chars.len() > 0 && topic_chars[0] == '$' {
        return false;
    }
    let filter_chars = chars_of(filter);
    let topic_levels = split_levels(topic_chars.as_slice());
    let filter_levels = split_levels(filter_chars.as_slice());
    let ghost t = levels(topic@);
    let ghost f = levels(filter@);
    let mut i: usize = 0;
    assert(t.skip(0) == t && f.skip(0) == f);
    while i < filter_levels.len()
        invariant
            i <= filter_levels.len(),
            t == levels(topic@),
            f == levels(filter@),
            split_is_levels(topic_levels@, topic@),
            split_is_levels(filter_levels@, filter@),
            i <= topic_levels.len(),
            !(topic@.len() > 0 && topic@[0] == '$'),
            levels_match(t, f) == levels_match(t.skip(i as int), f.skip(i as int)),
        decreases filter_levels.len() - i,
    {
        assert(filter_levels@.map_values(|level: Vec<char>| level@)[i as int]
            == filter_levels@[i as int]@);
        assert(f.skip(i as int)[0] == filter_levels@[i as int]@);
        assert(f.skip(i as int).drop_first() == f.skip(i + 1));
        if is_wildcard(filter_levels[i].as_slice(), '#') {
            return true;
        }
        if i >= topic_levels.len() {
            return false;
        }
        assert(topic_levels@.map_values(|level: Vec<char>| level@)[i as int]
            == topic_levels@[i as int]@);
        assert(t.skip(i as int)[0] == topic_levels@[i as int]@);
        assert(t.skip(i as int).drop_first() == t.skip(i + 1));
        if is_wildcard(topic_levels[i].as_slice(), '#') {
            return false;
        }
        if !is_wildcard(filter_levels[i].as_slice(), '+') && !same_chars(
            filter_levels[i].as_slice(),
            topic_levels[i].as_slice(),
        ) {
            return false;
        }
        i += 1;
    }
    i == topic_levels.len()
}

/// `#` alone matches every topic that does not begin with `$`.
pub proof fn lemma_multi_level_wildcard_matches_all(topic: Seq<char>)
    requires
        !(topic.len() > 0 && topic[0] == '$'),
    ensures
        filter_matches(multi_level_wildcard(), topic),
{
    let f = multi_level_wildcard();
    assert(f.drop_last() == Seq::<char>::empty());
    reveal_with_fuel(levels, 2);
    assert(levels(f)[0] == f);
}

/// A forwarding rule: messages whose topic matches the filter `mqtt_topic`
/// go to the Kafka topic `kafka_topic`, framed as JSON if `wrap_as_json`.
#[derive(Debug, Clone, PartialEq, Eq)]
pub struct TopicMatch {
    pub mqtt_topic: String,
    pub kafka_topic: String,
    pub wrap_as_json: bool,
}

impl TopicMatch {
    /// The rule that `forwarding` configures. Payloads are forwarded as
    /// they are unless the configuration asks for the JSON frame.
    pub open spec fn of_config(forwarding: ForwardingConfig) -> TopicMatch {
        TopicMatch {
            mqtt_topic: forwarding.mqtt.topic,
            kafka_topic: forwarding.kafka.topic,
            wrap_as_json: match forwarding.wrap_as_json {
                Some(wrap) => wrap,
                None => false,
            },
        }
    }

    /// The rule that `forwarding` configures.
    pub fn from_config(forwarding: &ForwardingConfig) -> (rule: TopicMatch)
        ensures
            rule == TopicMatch::of_config(*forwarding),
    {
        TopicMatch {
            mqtt_topic: forwarding.mqtt.topic.clone(),
            kafka_topic: forwarding.kafka.topic.clone(),
            wrap_as_json: match forwarding.wrap_as_json {
                Some(wrap) => wrap,
                None => false,
            },
        }
    }

    /// A copy of this rule.
    pub fn duplicate(&self) -> (rule: TopicMatch)
        ensures
            rule == *self,
    {
        TopicMatch {
            mqtt_topic: self.mqtt_topic.clone(),
            kafka_topic: self.kafka_topic.clone(),
            wrap_as_json: self.wrap_as_json,
        }
    }
}

/// The rules that the configuration states, in its order.
pub fn forwarding_rules(forwardings: &[ForwardingConfig]) -> (rules: Vec<TopicMatch>)
    ensures
        rules@ == forwardings@.map_values(|f: ForwardingConfig| TopicMatch::of_config(f)),
{
    let mut rules: Vec<TopicMatch> = Vec::new();
    let mut i: usize = 0;
    while i < forwardings.len()
        invariant
            i <= forwardings.len(),
            rules@ == forwardings@.take(i as int).map_values(
                |f: ForwardingConfig| TopicMatch::of_config(f),
            ),
        decreases forwardings.len() - i,
    {
        rules.push(TopicMatch::from_config(&forwardings[i]));
        assert(forwardings@.take(i + 1) == forwardings@.take(i as int).push(forwardings@[i as int]));
        i += 1;
    }
    assert(forwardings@.take(forwardings.len() as int) == forwardings@);
    rules
}

/// The test that picks the rules for `topic`.
pub open spec fn applies_to(topic: Seq<char>) -> spec_fn(TopicMatch) -> bool {
    |rule: TopicMatch| filter_matches(rule.mqtt_topic@, topic)
}

/// The rules of `topic_config` whose filter matches `mqtt_topic`, in the
/// order of `topic_config`.
pub fn matching_topics(mqtt_topic: &str, topic_config: &[TopicMatch]) -> (matching: Vec<TopicMatch>)
    ensures
        matching@ == topic_config@.filter(applies_to(mqtt_topic@)),
{
    let mut matching: Vec<TopicMatch> = Vec::new();
    let mut i: usize = 0;
    proof {
        reveal(Seq::filter);
    }
    while i < topic_config.len()
        invariant
            i <= topic_config.len(),
            matching@ == topic_config@.take(i as int).filter(applies_to(mqtt_topic@)),
        decreases topic_config.len() - i,
    {
        proof {
            reveal(Seq::filter);
            assert(topic_config@.take(i + 1).drop_last() == topic_config@.take(i as int));
        }
        if mqtt_filter_matches(topic_config[i].mqtt_topic.as_str(), mqtt_topic) {
            matching.push(topic_config[i].duplicate());
        }
        i += 1;
    }
    assert(topic_config@.take(topic_config.len() as int) == topic_config@);
    matching
}

} // verus!
