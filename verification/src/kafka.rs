//! The configuration of the Kafka producer: the settings of the bridge,
//! and on top of them those of the operator.

use vstd::prelude::*;
use rdkafka::config::ClientConfig;
use crate::bindings::{bindings_of, is_set, value_of, Bindings};
use crate::config::KafkaConfig;

verus! {

/// Seconds that the fetch of the cluster metadata may take at startup.
pub const METADATA_TIMEOUT_SECS: u64 = 5;

/// Seconds that one attempt to produce a record may wait for room in the
/// producer's queue.
pub const PRODUCE_TIMEOUT_SECS: u64 = 1;

pub const BOOTSTRAP_SERVERS: &'static str = "bootstrap.servers";

pub const MESSAGE_TIMEOUT_MS: &'static str = "message.timeout.ms";

pub const MAX_IN_FLIGHT_REQUESTS: &'static str = "max.in.flight.requests.per.connection";

/// The configuration of an `rdkafka` client.
#[verifier::external_type_specification]
#[verifier::external_body]
pub struct ExClientConfig(ClientConfig);

/// The parameters that were set on the configuration, with their values.
pub uninterp spec fn parameters(config: ClientConfig) -> Map<Seq<char>, Seq<char>>;

/// `ClientConfig::new`: a configuration on which no parameter is set.
#[verifier::external_body]
fn new_client_config() -> (config: ClientConfig)
    ensures
        parameters(config) == (Map::<Seq<char>, Seq<char>>::empty()),
{
    ClientConfig::new()
}

/// `ClientConfig::set`: the parameter `key` has the value `value`,
/// whatever it had before; the other parameters stay.
#[verifier::external_body]
fn set_parameter(config: &mut ClientConfig, key: &str, value: &str)
    ensures
        parameters(*final(config)) == parameters(*old(config)).insert(key@, value@),
{
    config.set(key, value);
}

/// The settings of the bridge for a producer that connects to `url`:
/// the producer tries for twelve seconds to deliver a record before it
/// reports a failure, and keeps up to 500 requests in flight on each
/// connection.
pub open spec fn default_parameters(url: Seq<char>) -> Map<Seq<char>, Seq<char>> {
    Map::<Seq<char>, Seq<char>>::empty().insert(BOOTSTRAP_SERVERS@, url).insert(
        MESSAGE_TIMEOUT_MS@,
        "12000"@,
    ).insert(MAX_IN_FLIGHT_REQUESTS@, "500"@)
}

/// `parameters` with each of `bindings` set on top, in their order.
pub open spec fn with_bindings(
    parameters: Map<Seq<char>, Seq<char>>,
    bindings: Bindings,
) -> Map<Seq<char>, Seq<char>>
    decreases bindings.len(),
{
    if bindings.len() == 0 {
        parameters
    } else {
        with_bindings(parameters, bindings.drop_last()).insert(
            bindings.last().0,
            bindings.last().1,
        )
    }
}

/// The bindings that the operator configured.
pub open spec fn extra_bindings(config: KafkaConfig) -> Bindings {
    match config.config {
        Some(extra) => bindings_of(extra@),
        None => Seq::empty(),
    }
}

/// The parameters of the producer for `config`.
pub open spec fn producer_parameters(config: KafkaConfig) -> Map<Seq<char>, Seq<char>> {
    with_bindings(default_parameters(config.url()), extra_bindings(config))
}

/// What the operator sets overrides the settings of the bridge, and
/// what the operator leaves alone stays as the bridge sets it.
pub proof fn lemma_operator_overrides_defaults(
    parameters: Map<Seq<char>, Seq<char>>,
    bindings: Bindings,
    key: Seq<char>,
)
    ensures
        is_set(bindings, key) ==> with_bindings(parameters, bindings).dom().contains(key)
            && with_bindings(parameters, bindings)[key] == value_of(bindings, key),
        !is_set(bindings, key) ==> with_bindings(parameters, bindings).dom().contains(key)
            == parameters.dom().contains(key),
        !is_set(bindings, key) && parameters.dom().contains(key) ==> with_bindings(
            parameters,
            bindings,
        )[key] == parameters[key],
    decreases bindings.len(),
{
    if bindings.len() > 0 {
        lemma_operator_overrides_defaults(parameters, bindings.drop_last(), key);
        if bindings.last().0 == key {
            assert(bindings[bindings.len() - 1].0 == key);
        } else if is_set(bindings, key) {
            let k = choose|k: int| 0 <= k < bindings.len() && (#[trigger] bindings[k]).0 == key;
            assert(bindings.drop_last()[k].0 == key);
        } else {
            assert forall|k: int| 0 <= k < bindings.drop_last().len() implies (
            #[trigger] bindings.drop_last()[k]).0 != key by {
                assert(bindings[k].0 != key);
            }
        }
    }
}

/// The configuration of the producer for `config`: the settings of the
/// bridge, then what the operator configured on top of them.
pub fn client_config(config: &KafkaConfig) -> (client: ClientConfig)
    ensures
        parameters(client) == producer_parameters(*config),
{
    let mut client = new_client_config();
    let url = config.url_string();
    set_parameter(&mut client, BOOTSTRAP_SERVERS, url.as_str());
    set_parameter(&mut client, MESSAGE_TIMEOUT_MS, "12000");
    set_parameter(&mut client, MAX_IN_FLIGHT_REQUESTS, "500");
    match &config.config {
        Some(extra) => {
            let ghost bindings = bindings_of(extra@);
            let mut i: usize = 0;
            assert(bindings.take(0) == Seq::<(Seq<char>, Seq<char>)>::empty());
            while i < extra.len()
                invariant
                    i <= extra.len(),
                    bindings == bindings_of(extra@),
                    parameters(client) == with_bindings(
                        default_parameters(config.url()),
                        bindings.take(i as int),
                    ),
                decreases extra.len() - i,
            {
                set_parameter(&mut client, extra[i].0.as_str(), extra[i].1.as_str());
                proof {
                    assert(bindings.take(i + 1).drop_last() == bindings.take(i as int));
                    assert(bindings.take(i + 1).last() == (extra@[i as int].0@, extra@[i as int].1@));
                }
                i += 1;
            }
            assert(bindings.take(extra.len() as int) == bindings);
        },
        None => {},
    }
    client
}

} // verus!
