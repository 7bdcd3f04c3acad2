use vstd::prelude::*;

verus! {

/// zenoh's configuration of a session, carried through unread.
#[verifier::external_type_specification]
#[verifier::external_body]
pub struct ExZenohConfig(zenoh::Config);

/// Whether `config` is a configuration that zenoh reads from the JSON5 text
/// `text`: the settings that `text` writes, and zenoh's defaults for every
/// setting it leaves out. Some defaults depend on the machine (the number of
/// transmit threads follows the CPU count), so one text may be read as
/// several configurations, one per machine; a text that zenoh refuses is
/// read as none.
pub uninterp spec fn json5_describes(text: Seq<char>, config: zenoh::Config) -> bool;

/// Whether zenoh accepts the JSON5 text `text` as a session configuration:
/// it reads some configuration from it.
pub open spec fn json5_accepted(text: Seq<char>) -> bool {
    exists|config: zenoh::Config| #[trigger] json5_describes(text, config)
}

/// `zenoh::Config::default`: zenoh's default configuration. Trusted: nothing
/// is stated of the value, which Verus cannot look into and which depends on
/// the machine (the number of transmit threads follows the CPU count).
#[verifier::external_body]
pub(crate) fn default_config() -> (res: zenoh::Config) {
    zenoh::Config::default()
}

/// `zenoh::Config::from_json5`: the configuration that `text` describes, or
/// `None` when zenoh refuses it. Trusted: the call deserializes `text`,
/// filling the settings it leaves out with zenoh's defaults, and validates
/// the result; so a returned configuration is one that zenoh reads from
/// `text` (`json5_describes`). Whether it succeeds depends on `text` alone:
/// parsing is a function of the text, and zenoh's validators check settings
/// read from it or given fixed defaults, never the machine-dependent ones.
/// Which configuration is returned is not a function of the text, since the
/// default number of transmit threads follows the machine's CPU count.
#[verifier::external_body]
fn config_from_json5(text: &str) -> (res: Option<zenoh::Config>)
    ensures
        res.is_some() == json5_accepted(text@),
        res matches Some(config) ==> json5_describes(text@, config),
{
    zenoh::Config::from_json5(text).ok()
}

/// The session configuration of the examples, written for this crate: a
/// peer that listens on, and scouts through, the multicast group that
/// zenoh-pico nodes use, with batches of 8192 bytes, the size of zenoh-pico's
/// multicast batches, so that both ends agree.
pub const DEFAULT_CONFIG_JSON5: &'static str = "{
  mode: \"peer\",
  listen: { endpoints: [\"udp/224.0.0.224:7447\"] },
  scouting: { multicast: { enabled: true, address: \"224.0.0.224:7446\" } },
  transport: { link: { tx: { batch_size: 8192 } } },
}";

/// Whether zenoh accepts the examples' configuration.
pub fn default_config_accepted() -> (ok: bool)
    ensures
        ok == json5_accepted(DEFAULT_CONFIG_JSON5@),
{
    config_from_json5(DEFAULT_CONFIG_JSON5).is_some()
}

/// The examples' configuration, read from `DEFAULT_CONFIG_JSON5`; zenoh must
/// accept that text.
pub fn get_default() -> (res: zenoh::Config)
    requires
        json5_accepted(DEFAULT_CONFIG_JSON5@),
    ensures
        json5_describes(DEFAULT_CONFIG_JSON5@, res),
{
    match config_from_json5(DEFAULT_CONFIG_JSON5) {
        Some(config) => config,
        None => {
            proof {
                assert(false);
            }
            default_config()
        },
    }
}

/// The examples' configuration when zenoh accepts `DEFAULT_CONFIG_JSON5`,
/// `None` when it does not.
pub fn try_get_default() -> (res: Option<zenoh::Config>)
    ensures
        res.is_some() == json5_accepted(DEFAULT_CONFIG_JSON5@),
        res matches Some(config) ==> json5_describes(DEFAULT_CONFIG_JSON5@, config),
{
    if default_config_accepted() {
        Some(get_default())
    } else {
        None
    }
}

} // verus!
