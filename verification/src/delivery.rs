//! The delivery of one inbound message: its records are produced to Kafka
//! one after the other, and only when Kafka has confirmed the last one is
//! the message acknowledged to the MQTT broker. The task says what to do
//! next; the driver does it and reports how it went.

use vstd::prelude::*;
use crate::engine::{EngineView, ForwardingEngine};
use crate::metrics::lemma_count_is_per_topic;
use crate::payload::{
    forwarding_records, max_encodable_len, record_views, records_for, wrapped_bytes,
    InboundMessage, KafkaRecord, RecordView,
};
use crate::topic::{applies_to, TopicMatch};

verus! {

/// How often a produce, and how often an acknowledgement, is tried before
/// the failure is final.
pub const MAX_ATTEMPTS: u8 = 5;

/// A failure that nothing but a restart of the process can mend: the
/// message stays unacknowledged, and the broker delivers it again to the
/// next session.
#[derive(Debug, Clone, Copy, PartialEq, Eq, Structural)]
pub enum Fatal {
    /// Kafka confirmed a record in none of `MAX_ATTEMPTS` attempts.
    ProduceFailed,
    /// The acknowledgement failed `MAX_ATTEMPTS` times.
    AckFailed,
}

/// Where a delivery stands.
#[derive(Debug, Clone, Copy, PartialEq, Eq, Structural)]
pub enum Phase {
    /// Records are still to be produced.
    Producing,
    /// All records are confirmed; the acknowledgement is still to be sent.
    Acknowledging,
    /// The message is acknowledged.
    Acknowledged,
    /// The delivery was given up.
    Aborted(Fatal),
}

/// What the driver is to do next for a delivery.
#[derive(Debug, Clone, Copy, PartialEq, Eq, Structural)]
pub enum TaskAction {
    /// Produce the record at `index` and report whether Kafka confirmed it.
    Produce { index: usize },
    /// Acknowledge the packet to the MQTT broker and report whether that
    /// worked.
    Acknowledge { packet_identifier: u16 },
    /// Nothing is left to do.
    Finish,
    /// Stop the process.
    Abort(Fatal),
}

/// What a delivery holds.
pub struct TaskView {
    /// The records to produce, in their order.
    pub records: Seq<RecordView>,
    /// The packet to acknowledge.
    pub packet_identifier: u16,
    /// How many records Kafka has confirmed.
    pub produced: nat,
    /// How many acknowledgements the broker has taken.
    pub acknowledged: nat,
    /// How often the step in progress has failed.
    pub failures: nat,
    pub phase: Phase,
}

impl TaskView {
    /// A delivery as `start` and `after` make it.
    pub open spec fn wf(self) -> bool {
        &&& self.records.len() <= usize::MAX
        &&& self.produced <= self.records.len()
        &&& self.failures <= MAX_ATTEMPTS
        &&& match self.phase {
            Phase::Producing => self.produced < self.records.len() && self.failures < MAX_ATTEMPTS,
            Phase::Acknowledging => self.produced == self.records.len() && self.failures
                < MAX_ATTEMPTS,
            Phase::Acknowledged => self.produced == self.records.len(),
            Phase::Aborted(Fatal::ProduceFailed) => self.produced < self.records.len(),
            Phase::Aborted(Fatal::AckFailed) => self.produced == self.records.len(),
        }
        &&& self.acknowledged == if self.phase is Acknowledged {
            1nat
        } else {
            0nat
        }
    }

    /// The delivery of `records` for the packet `packet_identifier`,
    /// before anything was done. Without records the acknowledgement is
    /// due at once.
    pub open spec fn start(records: Seq<RecordView>, packet_identifier: u16) -> TaskView {
        TaskView {
            records,
            packet_identifier,
            produced: 0,
            acknowledged: 0,
            failures: 0,
            phase: if records.len() == 0 {
                Phase::Acknowledging
            } else {
                Phase::Producing
            },
        }
    }

    /// What the driver is to do next.
    pub open spec fn next_action(self) -> TaskAction {
        match self.phase {
            Phase::Producing => TaskAction::Produce { index: self.produced as usize },
            Phase::Acknowledging => TaskAction::Acknowledge {
                packet_identifier: self.packet_identifier,
            },
            Phase::Acknowledged => TaskAction::Finish,
            Phase::Aborted(fatal) => TaskAction::Abort(fatal),
        }
    }

    /// This delivery after the step that `next_action` asked for
    /// succeeded.
    pub open spec fn after_success(self) -> TaskView {
        match self.phase {
            Phase::Producing => TaskView {
                produced: self.produced + 1,
                failures: 0,
                phase: if self.produced + 1 == self.records.len() {
                    Phase::Acknowledging
                } else {
                    Phase::Producing
                },
                ..self
            },
            Phase::Acknowledging => TaskView {
                acknowledged: self.acknowledged + 1,
                failures: 0,
                phase: Phase::Acknowledged,
                ..self
            },
            _ => self,
        }
    }

    /// This delivery after the step that `next_action` asked for failed:
    /// the step is due again, until it has failed `MAX_ATTEMPTS` times.
    pub open spec fn after_failure(self) -> TaskView {
        match self.phase {
            Phase::Producing => TaskView {
                failures: self.failures + 1,
                phase: if self.failures + 1 >= MAX_ATTEMPTS {
                    Phase::Aborted(Fatal::ProduceFailed)
                } else {
                    Phase::Producing
                },
                ..self
            },
            Phase::Acknowledging => TaskView {
                failures: self.failures + 1,
                phase: if self.failures + 1 >= MAX_ATTEMPTS {
                    Phase::Aborted(Fatal::AckFailed)
                } else {
                    Phase::Acknowledging
                },
                ..self
            },
            _ => self,
        }
    }

    /// This delivery after the step that `next_action` asked for went as
    /// `succeeded` says.
    pub open spec fn after(self, succeeded: bool) -> TaskView {
        if succeeded {
            self.after_success()
        } else {
            self.after_failure()
        }
    }

    /// This delivery after the steps went as `outcomes` say, in their
    /// order.
    pub open spec fn after_all(self, outcomes: Seq<bool>) -> TaskView
        decreases outcomes.len(),
    {
        if outcomes.len() == 0 {
            self
        } else {
            self.after_all(outcomes.drop_last()).after(outcomes.last())
        }
    }

    /// Whether the step that went as `succeeded` says has added a record
    /// to Kafka.
    pub open spec fn publishes(self, succeeded: bool) -> bool {
        self.phase is Producing && succeeded
    }

    /// The engine `engine` after this delivery's step went as `succeeded`
    /// says: a confirmed record is counted for its Kafka topic.
    pub open spec fn counted(self, succeeded: bool, engine: EngineView) -> EngineView {
        if self.publishes(succeeded) {
            engine.count_published(self.records[self.produced as int].topic)
        } else {
            engine
        }
    }
}

/// However the steps of a delivery go: the message is acknowledged at
/// most once, and only after every one of its records was confirmed; an
/// acknowledgement is never even asked for before that.
pub proof fn lemma_acknowledged_only_after_all_records(
    records: Seq<RecordView>,
    packet_identifier: u16,
    outcomes: Seq<bool>,
)
    requires
        records.len() <= usize::MAX,
    ensures
        ({
            let task = TaskView::start(records, packet_identifier).after_all(outcomes);
            &&& task.wf()
            &&& task.records == records
            &&& task.packet_identifier == packet_identifier
            &&& task.acknowledged <= 1
            &&& task.acknowledged == 1 ==> task.produced == records.len()
            &&& task.next_action() is Acknowledge ==> task.produced == records.len()
        }),
    decreases outcomes.len(),
{
    if outcomes.len() > 0 {
        lemma_acknowledged_only_after_all_records(
            records,
            packet_identifier,
            outcomes.drop_last(),
        );
    }
}

/// For a message on `topic` under the rules `rules`: however the steps of
/// its delivery go, the message is acknowledged at most once, and only
/// after one record for each rule that matches its topic was confirmed.
pub proof fn lemma_acknowledged_after_a_record_for_each_matching_rule(
    topic: Seq<char>,
    raw: Seq<u8>,
    wrapped: Seq<u8>,
    rules: Seq<TopicMatch>,
    packet_identifier: u16,
    outcomes: Seq<bool>,
)
    requires
        rules.len() <= usize::MAX,
    ensures
        ({
            let matching = rules.filter(applies_to(topic));
            let task = TaskView::start(
                records_for(topic, raw, wrapped, matching),
                packet_identifier,
            ).after_all(outcomes);
            &&& task.acknowledged <= 1
            &&& task.acknowledged == 1 ==> task.produced == matching.len()
            &&& task.produced <= matching.len()
        }),
{
    let matching = rules.filter(applies_to(topic));
    rules.lemma_filter_len(applies_to(topic));
    lemma_acknowledged_only_after_all_records(
        records_for(topic, raw, wrapped, matching),
        packet_identifier,
        outcomes,
    );
}

/// A message for which there is nothing to produce is acknowledged all
/// the same, as the first thing.
pub proof fn lemma_message_without_records_is_acknowledged(packet_identifier: u16)
    ensures
        TaskView::start(Seq::empty(), packet_identifier).next_action() == (
        TaskAction::Acknowledge { packet_identifier }),
        TaskView::start(Seq::empty(), packet_identifier).after(true).acknowledged == 1,
{
}

/// A record that fails `MAX_ATTEMPTS` times in a row ends the delivery
/// without an acknowledgement.
pub proof fn lemma_exhausted_produce_is_fatal(
    records: Seq<RecordView>,
    packet_identifier: u16,
)
    requires
        0 < records.len() <= usize::MAX,
    ensures
        ({
            let task = TaskView::start(records, packet_identifier).after_all(
                seq![false, false, false, false, false],
            );
            &&& task.phase == Phase::Aborted(Fatal::ProduceFailed)
            &&& task.acknowledged == 0
            &&& task.produced == 0
        }),
{
    let failures = seq![false, false, false, false, false];
    assert(failures.drop_last() == seq![false, false, false, false]);
    assert(failures.drop_last().drop_last() == seq![false, false, false]);
    assert(failures.drop_last().drop_last().drop_last() == seq![false, false]);
    assert(failures.drop_last().drop_last().drop_last().drop_last() == seq![false]);
    assert(seq![false].drop_last() == Seq::<bool>::empty());
    reveal_with_fuel(TaskView::after_all, 6);
}

impl TaskView {
    /// The engine `engine` after the steps of this delivery went as
    /// `outcomes` say.
    pub open spec fn counted_all(self, outcomes: Seq<bool>, engine: EngineView) -> EngineView
        decreases outcomes.len(),
    {
        if outcomes.len() == 0 {
            engine
        } else {
            self.after_all(outcomes.drop_last()).counted(
                outcomes.last(),
                self.counted_all(outcomes.drop_last(), engine),
            )
        }
    }

    /// How many records Kafka confirmed on `topic` while the steps of
    /// this delivery went as `outcomes` say.
    pub open spec fn confirmed_on(self, outcomes: Seq<bool>, topic: Seq<char>) -> nat
        decreases outcomes.len(),
    {
        if outcomes.len() == 0 {
            0
        } else {
            let before = self.after_all(outcomes.drop_last());
            self.confirmed_on(outcomes.drop_last(), topic) + if before.publishes(outcomes.last())
                && before.records[before.produced as int].topic == topic {
                1nat
            } else {
                0nat
            }
        }
    }
}

/// The published counter of a Kafka topic goes up by the number of
/// records that Kafka confirmed on that topic, as long as it does not run
/// over the end of `u64`. A delivery changes nothing else in the metrics.
pub proof fn lemma_published_counts_confirmed_records(
    task: TaskView,
    outcomes: Seq<bool>,
    engine: EngineView,
    topic: Seq<char>,
)
    requires
        engine.metrics.published_to(topic) + task.confirmed_on(outcomes, topic) <= u64::MAX,
    ensures
        task.counted_all(outcomes, engine).metrics.published_to(topic)
            == engine.metrics.published_to(topic) + task.confirmed_on(outcomes, topic),
        task.counted_all(outcomes, engine).metrics.received == engine.metrics.received,
        task.counted_all(outcomes, engine).metrics.connected == engine.metrics.connected,
        task.counted_all(outcomes, engine).connection == engine.connection,
    decreases outcomes.len(),
{
    if outcomes.len() > 0 {
        let before = task.after_all(outcomes.drop_last());
        lemma_published_counts_confirmed_records(task, outcomes.drop_last(), engine, topic);
        if before.publishes(outcomes.last()) {
            lemma_count_is_per_topic(
                task.counted_all(outcomes.drop_last(), engine).metrics,
                before.records[before.produced as int].topic,
                topic,
            );
        }
    }
}

/// The delivery of one message.
pub struct DeliveryTask {
    records: Vec<KafkaRecord>,
    packet_identifier: u16,
    produced: usize,
    failures: u8,
    phase: Phase,
}

impl View for DeliveryTask {
    type V = TaskView;

    closed spec fn view(&self) -> TaskView {
        TaskView {
            records: record_views(self.records@),
            packet_identifier: self.packet_identifier,
            produced: self.produced as nat,
            acknowledged: if self.phase is Acknowledged {
                1
            } else {
                0
            },
            failures: self.failures as nat,
            phase: self.phase,
        }
    }
}

impl DeliveryTask {
    /// The delivery of `records` for the packet `packet_identifier`.
    pub fn for_records(records: Vec<KafkaRecord>, packet_identifier: u16) -> (task: DeliveryTask)
        ensures
            task@ == TaskView::start(record_views(records@), packet_identifier),
            task@.wf(),
    {
        let phase = if records.len() == 0 {
            Phase::Acknowledging
        } else {
            Phase::Producing
        };
        DeliveryTask { records, packet_identifier, produced: 0, failures: 0, phase }
    }

    /// The delivery of `message` under the rules `rules`, which are those
    /// that match its topic: one record for each rule, keyed by the MQTT
    /// topic, with the payload as it came or in its JSON frame as the rule
    /// says.
    pub fn new(message: &InboundMessage, rules: &[TopicMatch]) -> (task: DeliveryTask)
        requires
            message.payload_bytes@.len() <= max_encodable_len(),
        ensures
            task@ == TaskView::start(
                records_for(
                    message.mqtt_topic@,
                    message.payload_bytes@,
                    wrapped_bytes(message.mqtt_topic@, message.payload_bytes@),
                    rules@,
                ),
                message.packet_identifier,
            ),
            task@.wf(),
    {
        DeliveryTask::for_records(forwarding_records(message, rules), message.packet_identifier)
    }

    /// What the driver is to do next.
    pub fn next_action(&self) -> (action: TaskAction)
        requires
            self@.wf(),
        ensures
            action == self@.next_action(),
            action matches TaskAction::Produce { index } ==> index < self@.records.len(),
    {
        match self.phase {
            Phase::Producing => TaskAction::Produce { index: self.produced },
            Phase::Acknowledging => TaskAction::Acknowledge {
                packet_identifier: self.packet_identifier,
            },
            Phase::Acknowledged => TaskAction::Finish,
            Phase::Aborted(fatal) => TaskAction::Abort(fatal),
        }
    }

    /// The records of this delivery.
    pub fn records(&self) -> (records: &Vec<KafkaRecord>)
        ensures
            record_views(records@) == self@.records,
    {
        &self.records
    }

    /// Takes in how the step that `next_action` asked for went, counts a
    /// confirmed record in `engine`, and says what to do next.
    pub fn on_outcome(&mut self, succeeded: bool, engine: &mut ForwardingEngine) -> (action:
        TaskAction)
        requires
            old(self)@.wf(),
            old(engine)@.wf(),
        ensures
            final(self)@ == old(self)@.after(succeeded),
            final(self)@.wf(),
            action == final(self)@.next_action(),
            final(engine)@ == old(self)@.counted(succeeded, old(engine)@),
            final(engine)@.wf(),
    {
        match self.phase {
            Phase::Producing => {
                if succeeded {
                    assert(record_views(self.records@)[self.produced as int]
                        == self.records@[self.produced as int]@);
                    engine.count_published(self.records[self.produced].topic.as_str());
                    self.produced = self.produced + 1;
                    self.failures = 0;
                    if self.produced == self.records.len() {
                        self.phase = Phase::Acknowledging;
                    }
                } else {
                    self.failures = self.failures + 1;
                    if self.failures >= MAX_ATTEMPTS {
                        self.phase = Phase::Aborted(Fatal::ProduceFailed);
                    }
                }
            },
            Phase::Acknowledging => {
                if succeeded {
                    self.failures = 0;
                    self.phase = Phase::Acknowledged;
                } else {
                    self.failures = self.failures + 1;
                    if self.failures >= MAX_ATTEMPTS {
                        self.phase = Phase::Aborted(Fatal::AckFailed);
                    }
                }
            },
            _ => {},
        }
        self.next_action()
    }
}

} // verus!
