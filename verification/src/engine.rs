//! The forwarding engine: what the bridge does with each thing that the
//! MQTT event loop hands it. The engine holds the rules, the running
//! totals, the state of the connection and the exported metrics; the
//! driver around it polls the event loop, sleeps and talks to the two
//! brokers as the engine's answers tell it to.

use vstd::prelude::*;
use crate::config::ForwardingConfig;
use crate::metrics::{
    fresh_metrics, init_metrics, lemma_count_is_per_topic, serves, MetricLabels, Metrics,
    MetricsView,
};
use crate::payload::InboundMessage;
use crate::stats::{count_after, count_up, Stats, StatsReport, StatsReporter};
use crate::topic::{applies_to, forwarding_rules, matching_topics, TopicMatch};

verus! {

/// Records in flight at the Kafka producer from which on no further
/// message is admitted.
pub const MAX_KAFKA_IN_FLIGHT: i32 = 1000;

/// Milliseconds to wait before the in-flight count is read again.
pub const BACKPRESSURE_SLEEP_MILLIS: u64 = 10;

/// Seconds to wait after a transport error before the next poll.
pub const RECONNECT_BACKOFF_SECS: u64 = 1;

/// Seconds after which a poll that brought nothing is given up.
pub const IDLE_POLL_SECS: u64 = 2;

/// Whether the MQTT session is up.
#[derive(Debug, Clone, Copy, PartialEq, Eq, Structural)]
pub enum ConnectionState {
    Connected,
    Disconnected,
}

/// What the MQTT event loop can hand over.
#[derive(Debug, Clone, PartialEq, Eq)]
pub enum SessionEvent {
    /// The broker accepted the connection.
    ConnAck,
    /// The broker accepted the subscription.
    SubAck,
    /// The broker delivered a message.
    Publish(InboundMessage),
    /// The broker closed the session.
    Disconnect,
    /// Anything else.
    Other,
}

/// How one poll of the event loop ended.
#[derive(Debug, Clone, PartialEq, Eq)]
pub enum PollOutcome {
    Event(SessionEvent),
    /// The transport failed.
    TransportError,
    /// Nothing came within `IDLE_POLL_SECS`.
    Idle,
}

/// What the driver is to do after a poll.
#[derive(Debug, Clone, PartialEq, Eq)]
pub enum EngineAction {
    /// Wait to be admitted, then forward `message` under `rules` and
    /// acknowledge it.
    Forward { message: InboundMessage, rules: Vec<TopicMatch> },
    /// Note that the subscription stands.
    Subscribed,
    /// Note that the connection is back.
    Reconnected,
    /// Warn that the broker closed the session.
    Disconnected,
    /// Warn of the lost connection if it stood before, then wait
    /// `RECONNECT_BACKOFF_SECS` before the next poll.
    ConnectionLost { was_connected: bool },
    /// Go on polling.
    Nothing,
}

/// Whether a message may be dispatched now.
#[derive(Debug, Clone, Copy, PartialEq, Eq, Structural)]
pub enum Admission {
    /// The message may be dispatched.
    Admit,
    /// Wait `BACKPRESSURE_SLEEP_MILLIS`, read the in-flight count again
    /// and ask again.
    Wait,
}

impl ConnectionState {
    /// What the connection gauge shows in this state.
    pub open spec fn gauge(self) -> i64 {
        match self {
            ConnectionState::Connected => 1,
            ConnectionState::Disconnected => 0,
        }
    }

    /// The state after a poll that ended with `outcome`.
    pub open spec fn after(self, outcome: PollOutcome) -> ConnectionState {
        match outcome {
            PollOutcome::Event(SessionEvent::ConnAck) => ConnectionState::Connected,
            PollOutcome::Event(SessionEvent::Disconnect) => ConnectionState::Disconnected,
            PollOutcome::TransportError => ConnectionState::Disconnected,
            _ => self,
        }
    }

    /// The state after the polls `outcomes`, in their order.
    pub open spec fn after_all(self, outcomes: Seq<PollOutcome>) -> ConnectionState
        decreases outcomes.len(),
    {
        if outcomes.len() == 0 {
            self
        } else {
            self.after_all(outcomes.drop_last()).after(outcomes.last())
        }
    }

    /// What the connection gauge shows in this state: 1 or 0.
    pub fn gauge_value(self) -> (value: i64)
        ensures
            value == self.gauge(),
            value == 0 || value == 1,
    {
        match self {
            ConnectionState::Connected => 1,
            ConnectionState::Disconnected => 0,
        }
    }
}

/// Whether `outcome` tells of the connection.
pub open spec fn tells_of_connection(outcome: PollOutcome) -> bool {
    outcome is TransportError || outcome == PollOutcome::Event(SessionEvent::ConnAck) || outcome
        == PollOutcome::Event(SessionEvent::Disconnect)
}

/// The connection stands exactly if the last outcome that told of it was
/// the broker's acceptance; until one tells of it, the state stays as it
/// was.
pub proof fn lemma_connection_mirrors_events(start: ConnectionState, outcomes: Seq<PollOutcome>)
    ensures
        (forall|i: int| 0 <= i < outcomes.len() ==> !tells_of_connection(#[trigger] outcomes[i]))
            ==> start.after_all(outcomes) == start,
        forall|i: int|
            #![trigger outcomes[i]]
            0 <= i < outcomes.len() && tells_of_connection(outcomes[i]) && (forall|j: int|
                i < j < outcomes.len() ==> !tells_of_connection(#[trigger] outcomes[j]))
                ==> (start.after_all(outcomes) == ConnectionState::Connected <==> outcomes[i]
                == PollOutcome::Event(SessionEvent::ConnAck)),
        start.after_all(outcomes).gauge() == 0 || start.after_all(outcomes).gauge() == 1,
    decreases outcomes.len(),
{
    if outcomes.len() > 0 {
        let before = outcomes.drop_last();
        lemma_connection_mirrors_events(start, before);
        assert forall|i: int|
            #![trigger outcomes[i]]
            0 <= i < outcomes.len() && tells_of_connection(outcomes[i]) && (forall|j: int|
                i < j < outcomes.len() ==> !tells_of_connection(
                    #[trigger] outcomes[j],
                )) implies (start.after_all(outcomes) == ConnectionState::Connected <==> outcomes[i]
            == PollOutcome::Event(SessionEvent::ConnAck)) by {
            if i < outcomes.len() - 1 {
                assert(!tells_of_connection(outcomes[outcomes.len() - 1]));
                assert(before[i] == outcomes[i]);
                assert forall|j: int| i < j < before.len() implies !tells_of_connection(
                    #[trigger] before[j],
                ) by {
                    assert(before[j] == outcomes[j]);
                }
            }
        }
        if forall|i: int| 0 <= i < outcomes.len() ==> !tells_of_connection(#[trigger] outcomes[i]) {
            assert forall|i: int| 0 <= i < before.len() implies !tells_of_connection(
                #[trigger] before[i],
            ) by {
                assert(before[i] == outcomes[i]);
            }
            assert(!tells_of_connection(outcomes[outcomes.len() - 1]));
        }
    }
}

/// What an engine holds.
pub struct EngineView {
    pub rules: Seq<TopicMatch>,
    pub stats: Stats,
    pub connection: ConnectionState,
    pub metrics: MetricsView,
}

impl EngineView {
    /// The gauge shows the state of the connection, and no message was
    /// admitted while the producer was full.
    pub open spec fn wf(self) -> bool {
        &&& self.metrics.connected == self.connection.gauge()
        &&& self.stats.in_flight_snapshot < MAX_KAFKA_IN_FLIGHT
    }

    /// The engine at the start of its work, with the rules `rules`: the
    /// session is up, and nothing is counted.
    pub open spec fn start(rules: Seq<TopicMatch>) -> EngineView {
        EngineView {
            rules,
            stats: Stats { received_total: 0, published_total: 0, in_flight_snapshot: 0 },
            connection: ConnectionState::Connected,
            metrics: fresh_metrics(1),
        }
    }

    /// This engine after it has counted one message received on `topic`.
    pub open spec fn count_received(self, topic: Seq<char>) -> EngineView {
        EngineView {
            stats: Stats {
                received_total: count_after(self.stats.received_total),
                ..self.stats
            },
            metrics: self.metrics.count_received(topic),
            ..self
        }
    }

    /// This engine after it has counted one record published to `topic`.
    pub open spec fn count_published(self, topic: Seq<char>) -> EngineView {
        EngineView {
            stats: Stats {
                published_total: count_after(self.stats.published_total),
                ..self.stats
            },
            metrics: self.metrics.count_published(topic),
            ..self
        }
    }

    /// This engine with the connection in `state`.
    pub open spec fn connect(self, state: ConnectionState) -> EngineView {
        EngineView {
            connection: state,
            metrics: self.metrics.set_connected(state.gauge()),
            ..self
        }
    }

    /// This engine after a poll that ended with `outcome`: a delivered
    /// message is counted, and the connection follows the broker's
    /// acceptance, its disconnect, and transport errors.
    pub open spec fn after_poll(self, outcome: PollOutcome) -> EngineView {
        match outcome {
            PollOutcome::Event(SessionEvent::Publish(message)) => self.count_received(
                message.mqtt_topic@,
            ),
            PollOutcome::Event(SessionEvent::ConnAck) => self.connect(ConnectionState::Connected),
            PollOutcome::Event(SessionEvent::Disconnect) => self.connect(
                ConnectionState::Disconnected,
            ),
            PollOutcome::TransportError => self.connect(ConnectionState::Disconnected),
            _ => self,
        }
    }

    /// Whether `action` is what the driver is to do after a poll of this
    /// engine that ended with `outcome`.
    pub open spec fn asks_for(self, outcome: PollOutcome, action: EngineAction) -> bool {
        match outcome {
            PollOutcome::Event(SessionEvent::Publish(delivered)) => {
                &&& action matches EngineAction::Forward { message, rules }
                &&& message == delivered
                &&& rules@ == self.rules.filter(applies_to(delivered.mqtt_topic@))
            },
            PollOutcome::Event(SessionEvent::SubAck) => action is Subscribed,
            PollOutcome::Event(SessionEvent::ConnAck) => action is Reconnected,
            PollOutcome::Event(SessionEvent::Disconnect) => action is Disconnected,
            PollOutcome::Event(SessionEvent::Other) => action is Nothing,
            PollOutcome::TransportError => action == (EngineAction::ConnectionLost {
                was_connected: self.connection == ConnectionState::Connected,
            }),
            PollOutcome::Idle => action is Nothing,
        }
    }

    /// Whether a message is admitted at the in-flight count `in_flight`.
    pub open spec fn admission(in_flight: i32) -> Admission {
        if in_flight < MAX_KAFKA_IN_FLIGHT {
            Admission::Admit
        } else {
            Admission::Wait
        }
    }

    /// This engine after admission was asked for at the in-flight count
    /// `in_flight`: a count that is admitted is kept as the snapshot.
    pub open spec fn after_admission(self, in_flight: i32) -> EngineView {
        if in_flight < MAX_KAFKA_IN_FLIGHT {
            EngineView { stats: Stats { in_flight_snapshot: in_flight, ..self.stats }, ..self }
        } else {
            self
        }
    }
}

impl EngineView {
    /// This engine after the polls that ended with `outcomes`, in their
    /// order.
    pub open spec fn after_polls(self, outcomes: Seq<PollOutcome>) -> EngineView
        decreases outcomes.len(),
    {
        if outcomes.len() == 0 {
            self
        } else {
            self.after_polls(outcomes.drop_last()).after_poll(outcomes.last())
        }
    }
}

/// Whether `outcome` is the delivery of a message on `topic`.
pub open spec fn is_publish_on(outcome: PollOutcome, topic: Seq<char>) -> bool {
    outcome matches PollOutcome::Event(SessionEvent::Publish(message)) && message.mqtt_topic@
        == topic
}

/// How many of `outcomes` are deliveries of a message on `topic`.
pub open spec fn publishes_on(outcomes: Seq<PollOutcome>, topic: Seq<char>) -> nat
    decreases outcomes.len(),
{
    if outcomes.len() == 0 {
        0
    } else {
        publishes_on(outcomes.drop_last(), topic) + if is_publish_on(outcomes.last(), topic) {
            1nat
        } else {
            0nat
        }
    }
}

/// The received counter of a topic goes up by the number of messages
/// delivered on that topic, as long as it does not run over the end of
/// `u64`. Polls change nothing else in the metrics but the connection
/// gauge, which shows the state of the connection throughout.
pub proof fn lemma_received_counts_publishes(
    engine: EngineView,
    outcomes: Seq<PollOutcome>,
    topic: Seq<char>,
)
    requires
        engine.wf(),
        engine.metrics.received_on(topic) + publishes_on(outcomes, topic) <= u64::MAX,
    ensures
        engine.after_polls(outcomes).metrics.received_on(topic) == engine.metrics.received_on(
            topic,
        ) + publishes_on(outcomes, topic),
        engine.after_polls(outcomes).metrics.published == engine.metrics.published,
        engine.after_polls(outcomes).connection == engine.connection.after_all(outcomes),
        engine.after_polls(outcomes).wf(),
    decreases outcomes.len(),
{
    if outcomes.len() > 0 {
        let before = engine.after_polls(outcomes.drop_last());
        lemma_received_counts_publishes(engine, outcomes.drop_last(), topic);
        match outcomes.last() {
            PollOutcome::Event(SessionEvent::Publish(message)) => {
                lemma_count_is_per_topic(before.metrics, message.mqtt_topic@, topic);
            },
            _ => {},
        }
    }
}

/// The forwarding engine.
pub struct ForwardingEngine {
    rules: Vec<TopicMatch>,
    stats: Stats,
    connection: ConnectionState,
    metrics: Metrics,
}

impl View for ForwardingEngine {
    type V = EngineView;

    closed spec fn view(&self) -> EngineView {
        EngineView {
            rules: self.rules@,
            stats: self.stats,
            connection: self.connection,
            metrics: self.metrics@,
        }
    }
}

impl ForwardingEngine {
    /// An engine for the rules that `forwardings` configures, to be made
    /// once the first poll of the event loop has succeeded.
    pub fn new(forwardings: &[ForwardingConfig]) -> (engine: ForwardingEngine)
        ensures
            engine@ == EngineView::start(
                forwardings@.map_values(|f: ForwardingConfig| TopicMatch::of_config(f)),
            ),
            engine@.wf(),
    {
        ForwardingEngine {
            rules: forwarding_rules(forwardings),
            stats: Stats::new(),
            connection: ConnectionState::Connected,
            metrics: init_metrics(),
        }
    }

    /// The rules, in the order of the configuration.
    pub fn rules(&self) -> (rules: &Vec<TopicMatch>)
        ensures
            rules@ == self@.rules,
    {
        &self.rules
    }

    /// The running totals.
    pub fn stats(&self) -> (stats: Stats)
        ensures
            stats == self@.stats,
    {
        self.stats
    }

    /// The state of the connection.
    pub fn connection(&self) -> (state: ConnectionState)
        ensures
            state == self@.connection,
    {
        self.connection
    }

    fn set_connection(&mut self, state: ConnectionState) -> (was: ConnectionState)
        requires
            old(self)@.wf(),
        ensures
            was == old(self)@.connection,
            final(self)@ == old(self)@.connect(state),
            final(self)@.wf(),
    {
        let was = self.connection;
        self.connection = state;
        self.metrics.set_connected(state.gauge_value());
        was
    }

    /// Counts the delivered message `message` and finds the rules for
    /// it. The answer is always to forward: a message that no rule
    /// matches is still to be acknowledged.
    pub fn handle_publish(&mut self, message: InboundMessage) -> (action: EngineAction)
        requires
            old(self)@.wf(),
        ensures
            final(self)@ == old(self)@.count_received(message.mqtt_topic@),
            final(self)@.wf(),
            old(self)@.asks_for(PollOutcome::Event(SessionEvent::Publish(message)), action),
    {
        self.stats.received_total = count_up(self.stats.received_total);
        let labels = MetricLabels::new(message.mqtt_topic.as_str());
        self.metrics.count_received(&labels);
        let rules = matching_topics(message.mqtt_topic.as_str(), self.rules.as_slice());
        EngineAction::Forward { message, rules }
    }

    /// Takes in one event of the session.
    pub fn handle_event(&mut self, event: SessionEvent) -> (action: EngineAction)
        requires
            old(self)@.wf(),
        ensures
            final(self)@ == old(self)@.after_poll(PollOutcome::Event(event)),
            final(self)@.wf(),
            old(self)@.asks_for(PollOutcome::Event(event), action),
    {
        match event {
            SessionEvent::Publish(message) => self.handle_publish(message),
            SessionEvent::SubAck => EngineAction::Subscribed,
            SessionEvent::ConnAck => {
                self.set_connection(ConnectionState::Connected);
                EngineAction::Reconnected
            },
            SessionEvent::Disconnect => {
                self.set_connection(ConnectionState::Disconnected);
                EngineAction::Disconnected
            },
            SessionEvent::Other => EngineAction::Nothing,
        }
    }

    /// Takes in the outcome of one poll of the event loop and says what
    /// the driver is to do before it polls again.
    pub fn handle_poll(&mut self, outcome: PollOutcome) -> (action: EngineAction)
        requires
            old(self)@.wf(),
        ensures
            final(self)@ == old(self)@.after_poll(outcome),
            final(self)@.wf(),
            old(self)@.asks_for(outcome, action),
    {
        match outcome {
            PollOutcome::Event(event) => self.handle_event(event),
            PollOutcome::TransportError => {
                let was = self.set_connection(ConnectionState::Disconnected);
                EngineAction::ConnectionLost { was_connected: was == ConnectionState::Connected }
            },
            PollOutcome::Idle => EngineAction::Nothing,
        }
    }

    /// The backpressure check, to be passed before a message is
    /// dispatched: a message is admitted only while fewer than
    /// `MAX_KAFKA_IN_FLIGHT` records are in flight at the producer, and
    /// the count that let it pass is kept as the snapshot.
    pub fn ask_admission(&mut self, in_flight: i32) -> (decision: Admission)
        requires
            old(self)@.wf(),
        ensures
            decision == EngineView::admission(in_flight),
            decision is Admit <==> in_flight < MAX_KAFKA_IN_FLIGHT,
            final(self)@ == old(self)@.after_admission(in_flight),
            final(self)@.wf(),
    {
        if in_flight < MAX_KAFKA_IN_FLIGHT {
            self.stats.in_flight_snapshot = in_flight;
            Admission::Admit
        } else {
            Admission::Wait
        }
    }

    /// Counts one record that Kafka has confirmed on `kafka_topic`.
    pub fn count_published(&mut self, kafka_topic: &str)
        requires
            old(self)@.wf(),
        ensures
            final(self)@ == old(self)@.count_published(kafka_topic@),
            final(self)@.wf(),
    {
        self.stats.published_total = count_up(self.stats.published_total);
        let labels = MetricLabels::new(kafka_topic);
        self.metrics.count_published(&labels);
    }

    /// Lets `reporter` take its sample of the running totals.
    pub fn report_stats(&mut self, reporter: &mut StatsReporter) -> (report: Option<StatsReport>)
        requires
            old(self)@.wf(),
        ensures
            report == if old(reporter).reports(old(self)@.stats) {
                Some(old(reporter).report_of(old(self)@.stats))
            } else {
                None
            },
            final(self)@.wf(),
            final(self)@.rules == old(self)@.rules,
            final(self)@.connection == old(self)@.connection,
            final(self)@.metrics == old(self)@.metrics,
            final(self)@.stats.in_flight_snapshot == old(self)@.stats.in_flight_snapshot,
            old(reporter).reports(old(self)@.stats) && old(reporter).resets(old(self)@.stats) ==> {
                &&& final(reporter).last == 0
                &&& final(self)@.stats.received_total == 0
                &&& final(self)@.stats.published_total == 0
            },
            !(old(reporter).reports(old(self)@.stats) && old(reporter).resets(old(self)@.stats))
                ==> final(self)@.stats == old(self)@.stats,
    {
        reporter.tick(&mut self.stats)
    }

    /// The exported metrics in the OpenMetrics text format: each of them
    /// is described and followed by its samples, and the text ends with
    /// the mark `# EOF`. Where the encoder fails, the stand-in is returned
    /// instead.
    pub fn metrics_text(&self) -> (text: String)
        ensures
            serves(self@.metrics.exported, text@),
    {
        crate::metrics::metrics(&self.metrics)
    }
}

} // verus!
