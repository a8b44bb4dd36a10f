//! The settings of the short-lived broker sessions.
//!
//! A lag computation opens its sessions for one call and drops them on every
//! way out. This module decides what each session is configured with; opening
//! it is left to the caller.

use rdkafka::config::ClientConfig;
use vstd::prelude::*;

verus! {

/// The consumer group under which metadata is queried. It is reserved for
/// that purpose, so that no query ever touches the offsets of a real group.
pub const METADATA_GROUP: &'static str = "metadata_temp_group";

/// How long one round-trip to the broker may take, in seconds.
pub const ROUND_TRIP_TIMEOUT_SECS: u64 = 5;

/// `rdkafka::config::ClientConfig`, carried as an opaque value.
#[verifier::external_type_specification]
#[verifier::external_body]
pub struct ExClientConfig(ClientConfig);

/// The parameters that were set in a configuration, by key.
pub uninterp spec fn config_entries(config: ClientConfig) -> Map<Seq<char>, Seq<char>>;

/// A configuration's parameters when none is set.
pub open spec fn no_entries() -> Map<Seq<char>, Seq<char>> {
    Map::empty()
}

/// `ClientConfig::new`. Trusted: the new configuration has no parameter set.
#[verifier::external_body]
fn new_config() -> (config: ClientConfig)
    ensures
        config_entries(config) == no_entries(),
{
    ClientConfig::new()
}

/// `ClientConfig::set`. Trusted: `key` now stands for `value`, whether or not
/// it was set before, and every other parameter is as it was.
#[verifier::external_body]
fn set_parameter(config: &mut ClientConfig, key: &str, value: &str)
    ensures
        config_entries(*final(config)) == config_entries(*old(config)).insert(key@, value@),
{
    config.set(key, value);
}

/// The parameters of a session for administrative requests.
pub open spec fn admin_entries(broker: Seq<char>) -> Map<Seq<char>, Seq<char>> {
    no_entries().insert("bootstrap.servers"@, broker)
}

/// The parameters of a session that queries metadata.
pub open spec fn metadata_entries(broker: Seq<char>) -> Map<Seq<char>, Seq<char>> {
    admin_entries(broker).insert("group.id"@, METADATA_GROUP@).insert(
        "enable.partition.eof"@,
        "false"@,
    )
}

/// The parameters of a session that reads the offsets of `group`.
pub open spec fn offsets_entries(broker: Seq<char>, group: Seq<char>) -> Map<
    Seq<char>,
    Seq<char>,
> {
    admin_entries(broker).insert("group.id"@, group).insert("enable.partition.eof"@, "false"@).insert(
        "session.timeout.ms"@,
        "6000"@,
    )
}

/// Configures a session for administrative requests to `broker`.
pub fn admin_config(broker: &str) -> (config: ClientConfig)
    ensures
        config_entries(config) == admin_entries(broker@),
{
    let mut config = new_config();
    set_parameter(&mut config, "bootstrap.servers", broker);
    config
}

/// Configures the session that queries the metadata of `broker`, under the
/// group reserved for it.
pub fn metadata_config(broker: &str) -> (config: ClientConfig)
    ensures
        config_entries(config) == metadata_entries(broker@),
{
    let mut config = admin_config(broker);
    set_parameter(&mut config, "group.id", METADATA_GROUP);
    set_parameter(&mut config, "enable.partition.eof", "false");
    config
}

/// Configures the session that reads the committed offsets of `group` and the
/// watermarks from `broker`.
pub fn offsets_config(broker: &str, group: &str) -> (config: ClientConfig)
    ensures
        config_entries(config) == offsets_entries(broker@, group@),
{
    let mut config = admin_config(broker);
    set_parameter(&mut config, "group.id", group);
    set_parameter(&mut config, "enable.partition.eof", "false");
    set_parameter(&mut config, "session.timeout.ms", "6000");
    config
}

} // verus!
