//! A client to an MQTT broker, based on `rumqttc`.
use vstd::prelude::*;

verus! {

/// The settings of an MQTT connection.
#[verifier::external_type_specification]
#[verifier::external_body]
pub struct ExMqttOptions(rumqttc::MqttOptions);

/// The handle through which requests go to the broker.
#[verifier::external_type_specification]
#[verifier::external_body]
pub struct ExAsyncClient(rumqttc::AsyncClient);

/// The loop that talks to the broker once it is polled.
#[verifier::external_type_specification]
#[verifier::external_body]
pub struct ExEventLoop(rumqttc::EventLoop);

/// The client id that a set of options carries (what `MqttOptions::client_id` gives).
pub uninterp spec fn options_client_id(options: rumqttc::MqttOptions) -> Seq<char>;

/// The broker address and port that a set of options carries (what
/// `MqttOptions::broker_address` gives).
pub uninterp spec fn options_broker(options: rumqttc::MqttOptions) -> (Seq<char>, u16);

/// The options that an event loop connects with (its field `mqtt_options`).
pub uninterp spec fn eventloop_options(eventloop: rumqttc::EventLoop) -> rumqttc::MqttOptions;

/// The capacity of the bounded request channel between a client and its event loop.
pub uninterp spec fn request_capacity(client: rumqttc::AsyncClient) -> usize;

/// Whether the client's requests go into the event loop's request channel.
pub uninterp spec fn feeds(client: rumqttc::AsyncClient, eventloop: rumqttc::EventLoop) -> bool;

/// Settings for the client `id` of the broker at `address` and `port`.
///
/// Trusted: calls `rumqttc::MqttOptions::new`, which stores `id` as the client
/// id and `address` and `port` as the broker address beside defaults, and does
/// not fail. The defaults are not stated.
#[verifier::external_body]
fn mqtt_options(id: &str, address: &str, port: u16) -> (options: rumqttc::MqttOptions)
    ensures
        options_client_id(options) == id@,
        options_broker(options) == (address@, port),
{
    rumqttc::MqttOptions::new(id, address, port)
}

/// A client and its event loop, with a request queue of `cap` entries.
///
/// Trusted: calls `rumqttc::AsyncClient::new`, which builds the event loop
/// from the options (kept in its field `mqtt_options`) and a bounded request
/// channel of capacity `cap`, and hands out a client that feeds that channel;
/// it does not connect and does not fail. The client's sender is a clone of
/// the event loop's own request sender, so the client feeds that event loop.
/// The rest of the state is not stated.
#[verifier::external_body]
fn client_pair(options: rumqttc::MqttOptions, cap: usize) -> (pair: (rumqttc::AsyncClient, rumqttc::EventLoop))
    ensures
        eventloop_options(pair.1) == options,
        request_capacity(pair.0) == cap,
        feeds(pair.0, pair.1),
{
    rumqttc::AsyncClient::new(options, cap)
}

/// A client to an MQTT broker: the handle for requests and the loop that
/// carries them out.
pub struct MqttClient {
    pub client: rumqttc::AsyncClient,
    pub eventloop: rumqttc::EventLoop,
}

impl MqttClient {
    /// Creates a client from a basic set of options: the client `id`, the
    /// broker's `address` and `port`, and the capacity `cap` of the request queue.
    pub fn new(id: &str, address: &str, port: u16, cap: usize) -> (client: Self)
        ensures
            options_client_id(eventloop_options(client.eventloop)) == id@,
            options_broker(eventloop_options(client.eventloop)) == (address@, port),
            request_capacity(client.client) == cap,
            feeds(client.client, client.eventloop),
    {
        let options = mqtt_options(id, address, port);
        Self::new_from_options(options, cap)
    }

    /// Creates a client from a full set of options.
    pub fn new_from_options(options: rumqttc::MqttOptions, cap: usize) -> (client: Self)
        ensures
            eventloop_options(client.eventloop) == options,
            request_capacity(client.client) == cap,
            feeds(client.client, client.eventloop),
    {
        let (client, eventloop) = client_pair(options, cap);
        MqttClient { client, eventloop }
    }
}

} // verus!
