//! The metrics that the bridge exports: how many messages came in on each
//! MQTT topic, how many records went out to each Kafka topic, and whether
//! the MQTT connection stands. They are kept in a `prometheus_client`
//! registry, which also writes them out.

use vstd::prelude::*;
use prometheus_client::metrics::counter::Counter;
use prometheus_client::metrics::family::Family;
use prometheus_client::metrics::gauge::Gauge;
use prometheus_client::registry::Registry;
use std::sync::atomic::AtomicI64;
use crate::stats::count_after;

verus! {

/// The name of the counter of received messages.
pub const RECEIVED_NAME: &'static str = "forwarding_mqtt_received";

/// The help text of the counter of received messages.
pub const RECEIVED_HELP: &'static str = "Number of messages received from mqtt";

/// The name of the counter of published records.
pub const PUBLISHED_NAME: &'static str = "forwarding_kafka_published";

/// The help text of the counter of published records.
pub const PUBLISHED_HELP: &'static str = "Number of messages published to kafka";

/// The name of the connection gauge.
pub const CONNECTED_NAME: &'static str = "forwarding_mqtt_connected";

/// The help text of the connection gauge.
pub const CONNECTED_HELP: &'static str = "Is the connection to the MQTT broker active";

/// The label of the per-topic counters.
#[derive(Clone, Hash, PartialEq, Eq, Debug)]
pub struct MetricLabels {
    pub topic: String,
}

/// A label set: names with their values.
pub type LabelSet = Seq<(Seq<char>, Seq<char>)>;

/// The label set that marks the counter of `topic`.
pub open spec fn topic_labels(topic: Seq<char>) -> LabelSet {
    seq![("topic"@, topic)]
}

impl MetricLabels {
    /// The labels for `topic`.
    pub fn new(topic: &str) -> (labels: MetricLabels)
        ensures
            labels.topic@ == topic@,
    {
        MetricLabels { topic: topic.to_owned() }
    }

    /// These labels as names with values.
    pub fn label_set(&self) -> (pairs: Vec<(String, String)>)
        ensures
            pairs.deep_view() == topic_labels(self.topic@),
    {
        let mut pairs: Vec<(String, String)> = Vec::new();
        pairs.push(("topic".to_owned(), self.topic.clone()));
        assert(pairs.deep_view() =~= topic_labels(self.topic@));
        pairs
    }
}

/// A registry of `prometheus_client`.
#[verifier::external_type_specification]
#[verifier::external_body]
pub struct ExRegistry(Registry);

/// How a registry describes a metric: its name, its help text and the
/// keyword of its type.
pub type Described = (Seq<char>, Seq<char>, Seq<char>);

/// The metrics that were registered, each as the registry describes it,
/// in the order in which they were registered.
pub uninterp spec fn registered(registry: Registry) -> Seq<Described>;

/// How the registry describes a metric of the type `kind` that was
/// registered as `name` with the help text `help`: the registry ends the
/// help text with a full stop.
pub open spec fn registration(name: Seq<char>, help: Seq<char>, kind: Seq<char>) -> Described {
    (name, help + "."@, kind)
}

/// The two lines that introduce a metric in the OpenMetrics text format.
pub open spec fn description(metric: Described) -> Seq<char> {
    "# HELP "@ + metric.0 + " "@ + metric.1 + "\n"@ + "# TYPE "@ + metric.0 + " "@ + metric.2
        + "\n"@
}

/// The text that describes each of `metrics` in their order, each
/// followed by its samples, the lines that give its values.
pub open spec fn described_samples(metrics: Seq<Described>, samples: Seq<Seq<char>>) -> Seq<char>
    decreases metrics.len(),
{
    if metrics.len() == 0 {
        Seq::empty()
    } else {
        described_samples(metrics.drop_last(), samples.drop_last()) + description(metrics.last())
            + samples.last()
    }
}

/// The OpenMetrics text for `metrics` with the samples `samples`: the
/// metrics with their samples, then the mark of the end.
pub open spec fn exposition(metrics: Seq<Described>, samples: Seq<Seq<char>>) -> Seq<char> {
    described_samples(metrics, samples) + "# EOF\n"@
}

/// Whether `text` is an OpenMetrics text for `metrics`, whatever their
/// samples are: it describes each of them, in their order, and is
/// complete.
pub open spec fn is_exposition(metrics: Seq<Described>, text: Seq<char>) -> bool {
    exists|samples: Seq<Seq<char>>|
        samples.len() == metrics.len() && text == #[trigger] exposition(metrics, samples)
}

/// A gauge of `prometheus_client`.
#[verifier::external_type_specification]
#[verifier::external_body]
#[verifier::reject_recursive_types(N)]
#[verifier::reject_recursive_types(A)]
pub struct ExGauge<N, A>(Gauge<N, A>);

/// The error of a formatter; nothing of it is read here.
#[verifier::external_type_specification]
#[verifier::external_body]
pub struct ExFmtError(std::fmt::Error);

/// A family of counters of `prometheus_client`, one counter for each label
/// set that was counted.
#[verifier::external_body]
pub struct TopicCounters {
    family: Family<Vec<(String, String)>, Counter>,
}

/// The value of each counter of the family, by its label set.
pub uninterp spec fn counter_values(counters: TopicCounters) -> Map<LabelSet, u64>;

/// The value that the gauge shows.
pub uninterp spec fn gauge_value(gauge: Gauge<i64, AtomicI64>) -> i64;

/// The value of the counter for `labels`; a counter that was never
/// counted stands at zero.
pub open spec fn count_of(values: Map<LabelSet, u64>, labels: LabelSet) -> u64 {
    if values.dom().contains(labels) {
        values[labels]
    } else {
        0
    }
}

impl TopicCounters {
    /// `Family::default`: a family that holds no counter yet.
    #[verifier::external_body]
    fn new() -> (counters: TopicCounters)
        ensures
            counter_values(counters) == (Map::<LabelSet, u64>::empty()),
    {
        TopicCounters { family: Family::default() }
    }

    /// `Family::get_or_create`, then `Counter::inc` on what it returns: the
    /// counter for `labels` is made at zero if the family did not hold it,
    /// and goes up by one, wrapping at the end of `u64`. No other counter
    /// changes.
    #[verifier::external_body]
    fn increment(&mut self, labels: &Vec<(String, String)>)
        ensures
            counter_values(*final(self)) == counter_values(*old(self)).insert(
                labels.deep_view(),
                count_after(count_of(counter_values(*old(self)), labels.deep_view())),
            ),
    {
        self.family.get_or_create(labels).inc();
    }
}

/// `Registry::default`: a registry without metrics.
#[verifier::external_body]
fn new_registry() -> (registry: Registry)
    ensures
        registered(registry) == Seq::<Described>::empty(),
{
    Registry::default()
}

/// `Registry::register` with a family of counters: the family is added
/// to the metrics of the registry, which will write its counters out
/// under `name`, as a metric of the type `counter`.
#[verifier::external_body]
fn register_counters(registry: &mut Registry, name: &str, help: &str, counters: &TopicCounters)
    ensures
        registered(*final(registry)) == registered(*old(registry)).push(
            registration(name@, help@, "counter"@),
        ),
{
    registry.register(name, help, counters.family.clone());
}

/// `Registry::register` with a gauge: the gauge is added to the metrics
/// of the registry, which will write it out under `name`, as a metric of
/// the type `gauge`.
#[verifier::external_body]
fn register_gauge(registry: &mut Registry, name: &str, help: &str, gauge: &Gauge<i64, AtomicI64>)
    ensures
        registered(*final(registry)) == registered(*old(registry)).push(
            registration(name@, help@, "gauge"@),
        ),
{
    registry.register(name, help, gauge.clone());
}

/// `Gauge::default`: a gauge that shows zero.
#[verifier::external_body]
fn new_gauge() -> (gauge: Gauge<i64, AtomicI64>)
    ensures
        gauge_value(gauge) == 0,
{
    Gauge::default()
}

/// `Gauge::set`: the gauge shows `value`; the call returns what it showed
/// before.
#[verifier::external_body]
fn set_gauge(gauge: &mut Gauge<i64, AtomicI64>, value: i64) -> (previous: i64)
    ensures
        previous == gauge_value(*old(gauge)),
        gauge_value(*final(gauge)) == value,
{
    gauge.set(value)
}

/// `prometheus_client::encoding::text::encode` into a fresh string: the
/// metrics of the registry in the OpenMetrics text format. For each
/// metric, in the order of registration, the encoder writes the two lines
/// that describe it and then its samples, and it ends the text with the
/// mark `# EOF`. This is said of a registry that `Registry::default` made
/// and that `Registry::register` alone has filled, which has no prefix,
/// no units and nothing else to write; this library has no other. The
/// samples follow the values at the time of the call, and those of a
/// family come in no fixed order, so nothing is claimed of them.
#[verifier::external_body]
fn encode_registry(registry: &Registry) -> (encoded: Result<String, std::fmt::Error>)
    ensures
        encoded matches Ok(text) ==> is_exposition(registered(*registry), text@),
{
    let mut buffer = String::new();
    match prometheus_client::encoding::text::encode(&mut buffer, registry) {
        Ok(()) => Ok(buffer),
        Err(e) => Err(e),
    }
}

/// What the metrics show.
pub struct MetricsView {
    /// The exported metrics, each as the registry describes it.
    pub exported: Seq<Described>,
    /// `forwarding_mqtt_received`, by label set.
    pub received: Map<LabelSet, u64>,
    /// `forwarding_kafka_published`, by label set.
    pub published: Map<LabelSet, u64>,
    /// `forwarding_mqtt_connected`.
    pub connected: i64,
}

impl MetricsView {
    /// `forwarding_mqtt_received` for the MQTT topic `topic`.
    pub open spec fn received_on(self, topic: Seq<char>) -> u64 {
        count_of(self.received, topic_labels(topic))
    }

    /// `forwarding_kafka_published` for the Kafka topic `topic`.
    pub open spec fn published_to(self, topic: Seq<char>) -> u64 {
        count_of(self.published, topic_labels(topic))
    }

    /// These metrics after one more message received on `topic`.
    pub open spec fn count_received(self, topic: Seq<char>) -> MetricsView {
        MetricsView {
            received: self.received.insert(
                topic_labels(topic),
                count_after(self.received_on(topic)),
            ),
            ..self
        }
    }

    /// These metrics after one more record published to `topic`.
    pub open spec fn count_published(self, topic: Seq<char>) -> MetricsView {
        MetricsView {
            published: self.published.insert(
                topic_labels(topic),
                count_after(self.published_to(topic)),
            ),
            ..self
        }
    }

    /// These metrics with `value` on the connection gauge.
    pub open spec fn set_connected(self, value: i64) -> MetricsView {
        MetricsView { connected: value, ..self }
    }
}

/// Counting on one topic leaves the counters of all other topics alone.
pub proof fn lemma_count_is_per_topic(metrics: MetricsView, topic: Seq<char>, other: Seq<char>)
    ensures
        metrics.count_received(topic).received_on(topic) == count_after(
            metrics.received_on(topic),
        ),
        metrics.count_published(topic).published_to(topic) == count_after(
            metrics.published_to(topic),
        ),
        other != topic ==> metrics.count_received(topic).received_on(other)
            == metrics.received_on(other),
        other != topic ==> metrics.count_published(topic).published_to(other)
            == metrics.published_to(other),
{
    assert(topic_labels(other)[0].1 == other);
    assert(topic_labels(topic)[0].1 == topic);
}

/// The metrics of one bridge.
pub struct Metrics {
    registry: Registry,
    received: TopicCounters,
    published: TopicCounters,
    connected: Gauge<i64, AtomicI64>,
}

impl View for Metrics {
    type V = MetricsView;

    closed spec fn view(&self) -> MetricsView {
        MetricsView {
            exported: registered(self.registry),
            received: counter_values(self.received),
            published: counter_values(self.published),
            connected: gauge_value(self.connected),
        }
    }
}

impl Metrics {
    /// Counts one message received on the MQTT topic of `labels`.
    pub fn count_received(&mut self, labels: &MetricLabels)
        ensures
            final(self)@ == old(self)@.count_received(labels.topic@),
    {
        let pairs = labels.label_set();
        self.received.increment(&pairs);
    }

    /// Counts one record published to the Kafka topic of `labels`.
    pub fn count_published(&mut self, labels: &MetricLabels)
        ensures
            final(self)@ == old(self)@.count_published(labels.topic@),
    {
        let pairs = labels.label_set();
        self.published.increment(&pairs);
    }

    /// Shows `value` on the connection gauge and returns what it showed
    /// before.
    pub fn set_connected(&mut self, value: i64) -> (previous: i64)
        ensures
            previous == old(self)@.connected,
            final(self)@ == old(self)@.set_connected(value),
    {
        set_gauge(&mut self.connected, value)
    }
}

/// The three metrics of the bridge.
pub open spec fn exported_metrics() -> Seq<Described> {
    seq![
        registration(RECEIVED_NAME@, RECEIVED_HELP@, "counter"@),
        registration(PUBLISHED_NAME@, PUBLISHED_HELP@, "counter"@),
        registration(CONNECTED_NAME@, CONNECTED_HELP@, "gauge"@),
    ]
}

/// Metrics that have counted nothing, with `connected` on the gauge.
pub open spec fn fresh_metrics(connected: i64) -> MetricsView {
    MetricsView {
        exported: exported_metrics(),
        received: Map::<LabelSet, u64>::empty(),
        published: Map::<LabelSet, u64>::empty(),
        connected,
    }
}

/// Fresh metrics under their exported names. No message is counted yet,
/// and the connection gauge shows 1: the bridge starts its work only once
/// the broker has answered.
pub fn init_metrics() -> (metrics: Metrics)
    ensures
        metrics@ == fresh_metrics(1),
{
    let mut registry = new_registry();
    let received = TopicCounters::new();
    let published = TopicCounters::new();
    let mut connected = new_gauge();
    register_counters(&mut registry, RECEIVED_NAME, RECEIVED_HELP, &received);
    register_counters(&mut registry, PUBLISHED_NAME, PUBLISHED_HELP, &published);
    register_gauge(&mut registry, CONNECTED_NAME, CONNECTED_HELP, &connected);
    set_gauge(&mut connected, 1);
    assert(registered(registry) =~= exported_metrics());
    Metrics { registry, received, published, connected }
}

/// What is served where the metrics cannot be written out.
pub open spec fn fallback_text() -> Seq<char> {
    "forwarding_mqtt_connected 0\n"@
}

/// The text to serve for an attempt to write the metrics out: the text
/// itself, or a stand-in that reports a broken connection.
pub fn metrics_or_fallback(encoded: Result<String, std::fmt::Error>) -> (text: String)
    ensures
        text@ == match encoded {
            Ok(buffer) => buffer@,
            Err(_) => fallback_text(),
        },
{
    match encoded {
        Ok(buffer) => buffer,
        Err(_) => "forwarding_mqtt_connected 0\n".to_owned(),
    }
}

/// What may be served for metrics that export `exported`: an OpenMetrics
/// text that describes each of them, or the stand-in.
pub open spec fn serves(exported: Seq<Described>, text: Seq<char>) -> bool {
    is_exposition(exported, text) || text == fallback_text()
}

/// The metrics `collected` in the OpenMetrics text format: each exported
/// metric is described, in the order of `exported`, and followed by its
/// samples, and the text ends with the mark `# EOF`. Where the encoder
/// fails, the stand-in is returned instead.
pub fn metrics(collected: &Metrics) -> (text: String)
    ensures
        serves(collected@.exported, text@),
{
    metrics_or_fallback(encode_registry(&collected.registry))
}

} // verus!
