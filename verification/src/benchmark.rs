//! The load test of the bridge: numbered messages are published to MQTT
//! and read back from Kafka, and what came back is held against what was
//! sent.

use vstd::prelude::*;
use vstd::pervasive::unreached;
use rumqttc::QoS;
use std::collections::HashSet;

verus! {

/// The error of the MQTT packet codec; nothing of it is read here.
#[verifier::external_type_specification]
#[verifier::external_body]
pub struct ExMqttBytesError(rumqttc::mqttbytes::Error);

/// One message of the load test.
#[derive(Debug, Clone, Copy, PartialEq, Eq, Structural)]
pub struct BenchmarkMessage {
    /// The number of the message, from zero.
    pub id: u64,
    /// Whether this is the last message of the run.
    pub last: bool,
}

impl BenchmarkMessage {
    /// The message number `count` of a run of `total` messages.
    pub fn nth(count: usize, total: usize) -> (message: BenchmarkMessage)
        requires
            count < total,
        ensures
            message == (BenchmarkMessage { id: count as u64, last: count == total - 1 }),
    {
        BenchmarkMessage { id: count as u64, last: count == total - 1 }
    }
}

/// The quality of service with the level `level`.
pub open spec fn qos_level(level: u8) -> QoS {
    if level == 0 {
        QoS::AtMostOnce
    } else if level == 1 {
        QoS::AtLeastOnce
    } else {
        QoS::ExactlyOnce
    }
}

/// `rumqttc::qos`: the quality of service with the level `level`, and an
/// error for a level above 2.
#[verifier::external_body]
fn qos_of_level(level: u8) -> (qos: Result<QoS, rumqttc::mqttbytes::Error>)
    ensures
        qos is Ok <==> level <= 2,
        qos matches Ok(q) ==> q == qos_level(level),
{
    rumqttc::qos(level)
}

/// The level `level` is none of 0, 1 and 2.
#[derive(Debug, Clone, Copy, PartialEq, Eq, Structural)]
pub struct InvalidQoS {
    pub level: u8,
}

/// The quality of service for the publishes of a run. Where none is
/// asked for it is "at least once".
pub open spec fn qos_for(level: Option<u8>) -> QoS {
    match level {
        Some(l) => qos_level(l),
        None => QoS::AtLeastOnce,
    }
}

/// The quality of service for the level that was asked for, which must
/// be one of 0, 1 and 2 if it is there.
pub fn checked_qos(level: Option<u8>) -> (qos: Result<QoS, InvalidQoS>)
    ensures
        qos == match level {
            Some(l) if l > 2 => Err::<QoS, InvalidQoS>(InvalidQoS { level: l }),
            _ => Ok::<QoS, InvalidQoS>(qos_for(level)),
        },
{
    match level {
        None => Ok(QoS::AtLeastOnce),
        Some(l) => match qos_of_level(l) {
            Ok(qos) => Ok(qos),
            Err(_) => Err(InvalidQoS { level: l }),
        },
    }
}

/// The quality of service for the level that was asked for.
pub fn map_qos(qos: Option<u8>) -> (mapped: QoS)
    requires
        qos matches Some(level) ==> level <= 2,
    ensures
        mapped == qos_for(qos),
{
    match qos {
        None => QoS::AtLeastOnce,
        Some(level) => match qos_of_level(level) {
            Ok(mapped) => mapped,
            Err(_) => unreached(),
        },
    }
}

/// Nanoseconds in a second.
pub const NANOS_PER_SEC: u64 = 1_000_000_000;

/// Nanoseconds to leave between two publishes so that no more than
/// `rate_limit` messages go out in a second; none where no limit is set.
pub fn wait_nanos(rate_limit: Option<u32>) -> (nanos: u64)
    requires
        rate_limit != Some(0u32),
    ensures
        nanos == match rate_limit {
            Some(rate) => NANOS_PER_SEC as int / rate as int,
            None => 0,
        },
{
    match rate_limit {
        None => 0,
        Some(rate) => NANOS_PER_SEC / (rate as u64),
    }
}

/// What the consumer learns from a message it has read.
#[derive(Debug, Clone, Copy, PartialEq, Eq, Structural)]
pub struct Received {
    /// Whether this is the first message of the run: the clock starts
    /// with it.
    pub first: bool,
    /// The number of the first message where it is not zero: messages
    /// before it may be missing.
    pub unexpected_first_id: Option<u64>,
    /// Whether the run is over.
    pub last: bool,
}

/// What `message` tells a consumer that has read `seen` messages before
/// it.
pub open spec fn received_after(seen: nat, message: BenchmarkMessage) -> Received {
    Received {
        first: seen == 0,
        unexpected_first_id: if seen == 0 && message.id != 0 {
            Some(message.id)
        } else {
            None
        },
        last: message.last,
    }
}

/// The messages that the consumer has read so far, in their order.
pub struct BenchmarkRun {
    messages: Vec<BenchmarkMessage>,
}

impl View for BenchmarkRun {
    type V = Seq<BenchmarkMessage>;

    closed spec fn view(&self) -> Seq<BenchmarkMessage> {
        self.messages@
    }
}

impl BenchmarkRun {
    /// A run of which nothing was read yet.
    pub fn new() -> (run: BenchmarkRun)
        ensures
            run@ == Seq::<BenchmarkMessage>::empty(),
    {
        BenchmarkRun { messages: Vec::new() }
    }

    /// Takes in a message that was read.
    pub fn receive(&mut self, message: BenchmarkMessage) -> (received: Received)
        ensures
            final(self)@ == old(self)@.push(message),
            received == received_after(old(self)@.len(), message),
    {
        let first = self.messages.len() == 0;
        self.messages.push(message);
        Received {
            first,
            unexpected_first_id: if first && message.id != 0 {
                Some(message.id)
            } else {
                None
            },
            last: message.last,
        }
    }

    /// The messages that were read, in their order.
    pub fn into_messages(self) -> (messages: Vec<BenchmarkMessage>)
        ensures
            messages@ == self@,
    {
        self.messages
    }
}

/// The numbers of `messages`.
pub open spec fn ids_of(messages: Seq<BenchmarkMessage>) -> Set<u64> {
    Set::new(|id: u64| exists|k: int| 0 <= k < messages.len() && (#[trigger] messages[k]).id == id)
}

/// The numbers of a run of `count` messages: those below `count`.
pub open spec fn expected_ids(count: nat) -> Set<u64> {
    Set::new(|id: u64| id < count)
}

/// What a run came to.
#[derive(Debug, Clone, Copy, PartialEq, Eq, Structural)]
pub struct BenchmarkSummary {
    /// How many messages were published.
    pub published: usize,
    /// How many different messages were read back.
    pub received: usize,
    /// How many of the published messages were read back.
    pub correct: usize,
    /// Different messages read back per second; zero where the run took
    /// less than a millisecond.
    pub messages_per_second: u128,
    /// Whether something is missing: a warning is due.
    pub incomplete: bool,
}

/// What a run of `count` published messages came to, in which `messages`
/// were read back within `receive_millis` milliseconds.
pub open spec fn summary_of(
    count: usize,
    receive_millis: u128,
    messages: Seq<BenchmarkMessage>,
) -> BenchmarkSummary {
    let received = ids_of(messages).len();
    let correct = ids_of(messages).intersect(expected_ids(count as nat)).len();
    BenchmarkSummary {
        published: count,
        received: received as usize,
        correct: correct as usize,
        messages_per_second: if receive_millis == 0 {
            0
        } else {
            (received * 1000 / (receive_millis as nat)) as u128
        },
        incomplete: received < count || correct < count,
    }
}

/// What a run of `count` published messages came to, in which `messages`
/// were read back within `receive_millis` milliseconds.
pub fn summarize(count: usize, receive_millis: u128, messages: &[BenchmarkMessage]) -> (summary:
    BenchmarkSummary)
    ensures
        summary == summary_of(count, receive_millis, messages@),
        ids_of(messages@).finite(),
        ids_of(messages@).len() <= messages@.len(),
        summary.correct <= count,
{
    broadcast use vstd::std_specs::hash::group_hash_axioms;

    let mut ids: HashSet<u64> = HashSet::new();
    let mut k: usize = 0;
    assert(ids@ =~= ids_of(messages@.take(0)));
    while k < messages.len()
        invariant
            k <= messages.len(),
            ids@ == ids_of(messages@.take(k as int)),
            ids@.finite(),
            ids@.len() <= k,
        decreases messages.len() - k,
    {
        let ghost before = messages@.take(k as int);
        let ghost after = messages@.take(k + 1);
        ids.insert(messages[k].id);
        proof {
            assert(after == before.push(messages@[k as int]));
            assert forall|id: u64| ids_of(after).contains(id) <==> ids_of(before).insert(
                messages@[k as int].id,
            ).contains(id) by {
                if ids_of(after).contains(id) {
                    let j = choose|j: int| 0 <= j < after.len() && (#[trigger] after[j]).id == id;
                    if j < k {
                        assert(before[j].id == id);
                    }
                }
                if ids_of(before).contains(id) {
                    let j = choose|j: int| 0 <= j < before.len() && (#[trigger] before[j]).id == id;
                    assert(after[j].id == id);
                }
                if id == messages@[k as int].id {
                    assert(after[k as int].id == id);
                }
            }
            assert(ids@ =~= ids_of(after));
        }
        k += 1;
    }
    assert(messages@.take(messages.len() as int) == messages@);
    let received = ids.len();
    let mut correct: usize = 0;
    let mut i: usize = 0;
    assert(ids@.intersect(expected_ids(0)) =~= Set::<u64>::empty());
    while i < count
        invariant
            i <= count,
            ids@.finite(),
            correct == ids@.intersect(expected_ids(i as nat)).len(),
            correct <= i,
        decreases count - i,
    {
        proof {
            let below = ids@.intersect(expected_ids(i as nat));
            let next = ids@.intersect(expected_ids((i + 1) as nat));
            vstd::set_lib::lemma_len_intersect(ids@, expected_ids(i as nat));
            assert(below.finite());
            if ids@.contains(i as u64) {
                assert(next =~= below.insert(i as u64));
            } else {
                assert(next =~= below);
            }
        }
        if ids.contains(&(i as u64)) {
            correct += 1;
        }
        i += 1;
    }
    let messages_per_second: u128 = if receive_millis == 0 {
        0
    } else {
        (received as u128) * 1000 / receive_millis
    };
    BenchmarkSummary {
        published: count,
        received,
        correct,
        messages_per_second,
        incomplete: received < count || correct < count,
    }
}

} // verus!
