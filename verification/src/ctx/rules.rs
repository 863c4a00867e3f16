//! The settings that properties may name, and the rules by which their raw
//! values are decoded.

use crate::utils::string_set::StringSet;
use crate::utils::text::{
    chars_of, parse_unsigned, split, split_ranges, text_of, trim, trim_bounds, unsigned_value,
};
use crate::utils::time::{sequence_millis, token_millis};
use vstd::prelude::*;

verus! {

/// The settings that a property map may hold. Each has a name, which is its
/// key in the map, and a rule by which its value is decoded.
#[derive(Clone, Copy, Debug, PartialEq, Eq, Structural)]
pub enum SettingKey {
    /// `cluster.authKey`: the token by which brokers authenticate.
    ClusterAuthKey,
    /// `cluster.controller.host`: the host of the controller instance.
    ClusterControllerHost,
    /// `cluster.requestTimeout`: the timeout of a request, in milliseconds.
    ClusterRequestTimeout,
    /// `db.deadMessages.retention`: how long dead messages are kept.
    DeadMessagesRetention,
    /// `db.deliveredMessages.retention`: how long delivered messages are
    /// kept.
    DeliveredMessagesRetention,
    /// `msgproc.message_delivery_timeout`: the timeout of a delivery, in
    /// milliseconds.
    MessageDeliveryTimeout,
    /// `msgproc.workers`: the number of workers.
    Workers,
    /// `net.client.protocols`: the protocols opened to clients.
    ClientProtocols,
    /// `net.client.restful.port`: the port of the RESTful interface.
    RestfulPort,
    /// `retryPolicy.defaults.interval`: the default intervals between
    /// attempts.
    DefaultInterval,
    /// `retryPolicy.defaults.maxAttempts`: the default number of attempts.
    DefaultMaxAttempts,
    /// `retryPolicy.limit.maxInterval`: the longest interval allowed.
    MaxIntervalLimit,
    /// `retryPolicy.limit.maxAttempts`: the largest number of attempts
    /// allowed.
    MaxAttemptsLimit,
}

/// How the raw value of a setting is decoded.
pub enum DecodeRule {
    /// The value as it stands.
    Text,
    /// A non-negative integer literal that denotes a number from `min` to
    /// `max`.
    Integer { min: int, max: int },
    /// A duration token.
    Duration,
    /// One duration token, or a bracketed list of them.
    DurationSequence,
    /// Names with `,` between them; each is trimmed.
    Names,
}

impl SettingKey {
    /// The key of the setting in a property map.
    pub open spec fn name(self) -> Seq<char> {
        match self {
            SettingKey::ClusterAuthKey => "cluster.authKey"@,
            SettingKey::ClusterControllerHost => "cluster.controller.host"@,
            SettingKey::ClusterRequestTimeout => "cluster.requestTimeout"@,
            SettingKey::DeadMessagesRetention => "db.deadMessages.retention"@,
            SettingKey::DeliveredMessagesRetention => "db.deliveredMessages.retention"@,
            SettingKey::MessageDeliveryTimeout => "msgproc.message_delivery_timeout"@,
            SettingKey::Workers => "msgproc.workers"@,
            SettingKey::ClientProtocols => "net.client.protocols"@,
            SettingKey::RestfulPort => "net.client.restful.port"@,
            SettingKey::DefaultInterval => "retryPolicy.defaults.interval"@,
            SettingKey::DefaultMaxAttempts => "retryPolicy.defaults.maxAttempts"@,
            SettingKey::MaxIntervalLimit => "retryPolicy.limit.maxInterval"@,
            SettingKey::MaxAttemptsLimit => "retryPolicy.limit.maxAttempts"@,
        }
    }

    /// The rule by which the value of the setting is decoded. Timeouts are
    /// whole milliseconds from 0; the number of workers, the port and the
    /// limit of attempts are at least 1.
    pub open spec fn rule(self) -> DecodeRule {
        match self {
            SettingKey::ClusterAuthKey => DecodeRule::Text,
            SettingKey::ClusterControllerHost => DecodeRule::Text,
            SettingKey::ClusterRequestTimeout => DecodeRule::Integer {
                min: 0,
                max: i64::MAX as int,
            },
            SettingKey::DeadMessagesRetention => DecodeRule::Duration,
            SettingKey::DeliveredMessagesRetention => DecodeRule::Duration,
            SettingKey::MessageDeliveryTimeout => DecodeRule::Integer {
                min: 0,
                max: i64::MAX as int,
            },
            SettingKey::Workers => DecodeRule::Integer { min: 1, max: usize::MAX as int },
            SettingKey::ClientProtocols => DecodeRule::Names,
            SettingKey::RestfulPort => DecodeRule::Integer { min: 1, max: u32::MAX as int },
            SettingKey::DefaultInterval => DecodeRule::DurationSequence,
            SettingKey::DefaultMaxAttempts => DecodeRule::Integer { min: 0, max: u16::MAX as int },
            SettingKey::MaxIntervalLimit => DecodeRule::Duration,
            SettingKey::MaxAttemptsLimit => DecodeRule::Integer { min: 1, max: u16::MAX as int },
        }
    }

    /// A description, for a reader, of the values that the setting accepts.
    pub open spec fn expected(self) -> Seq<char> {
        match self {
            SettingKey::ClusterAuthKey => "cluster.authKey should be a string"@,
            SettingKey::ClusterControllerHost => "cluster.controller.host should be a string"@,
            SettingKey::ClusterRequestTimeout =>
                "cluster.requestTimeout should be a time in milliseconds >= 0"@,
            SettingKey::DeadMessagesRetention =>
                "db.deadMessages.retention should have a valid Duration syntax. Example: 30d"@,
            SettingKey::DeliveredMessagesRetention =>
                "db.deliveredMessages.retention should have a valid Duration syntax. Example: 30d"@,
            SettingKey::MessageDeliveryTimeout =>
                "msgproc.message_delivery_timeout should be a time in milliseconds >= 0"@,
            SettingKey::Workers => "msgproc.workers should be an integer >= 1"@,
            SettingKey::ClientProtocols =>
                "net.client.protocols should be a list of names separated by commas"@,
            SettingKey::RestfulPort => "net.client.restful.port should be an integer >= 1"@,
            SettingKey::DefaultInterval =>
                "retryPolicy.defaults.interval should have a valid DurationSequence syntax. Example: [1m, 5m, 1d]"@,
            SettingKey::DefaultMaxAttempts =>
                "retryPolicy.defaults.maxAttempts should be an integer >= 0"@,
            SettingKey::MaxIntervalLimit =>
                "retryPolicy.limit.maxInterval should have a valid Duration syntax. Example: 30m"@,
            SettingKey::MaxAttemptsLimit =>
                "retryPolicy.limit.maxAttempts should be an integer >= 1"@,
        }
    }

    /// The key of the setting in a property map.
    pub fn as_str(&self) -> (name: &'static str)
        ensures
            name@ == self.name(),
    {
        match self {
            SettingKey::ClusterAuthKey => "cluster.authKey",
            SettingKey::ClusterControllerHost => "cluster.controller.host",
            SettingKey::ClusterRequestTimeout => "cluster.requestTimeout",
            SettingKey::DeadMessagesRetention => "db.deadMessages.retention",
            SettingKey::DeliveredMessagesRetention => "db.deliveredMessages.retention",
            SettingKey::MessageDeliveryTimeout => "msgproc.message_delivery_timeout",
            SettingKey::Workers => "msgproc.workers",
            SettingKey::ClientProtocols => "net.client.protocols",
            SettingKey::RestfulPort => "net.client.restful.port",
            SettingKey::DefaultInterval => "retryPolicy.defaults.interval",
            SettingKey::DefaultMaxAttempts => "retryPolicy.defaults.maxAttempts",
            SettingKey::MaxIntervalLimit => "retryPolicy.limit.maxInterval",
            SettingKey::MaxAttemptsLimit => "retryPolicy.limit.maxAttempts",
        }
    }

    /// A description, for a reader, of the values that the setting accepts.
    pub fn expected_grammar(&self) -> (description: &'static str)
        ensures
            description@ == self.expected(),
    {
        match self {
            SettingKey::ClusterAuthKey => "cluster.authKey should be a string",
            SettingKey::ClusterControllerHost => "cluster.controller.host should be a string",
            SettingKey::ClusterRequestTimeout =>
                "cluster.requestTimeout should be a time in milliseconds >= 0",
            SettingKey::DeadMessagesRetention =>
                "db.deadMessages.retention should have a valid Duration syntax. Example: 30d",
            SettingKey::DeliveredMessagesRetention =>
                "db.deliveredMessages.retention should have a valid Duration syntax. Example: 30d",
            SettingKey::MessageDeliveryTimeout =>
                "msgproc.message_delivery_timeout should be a time in milliseconds >= 0",
            SettingKey::Workers => "msgproc.workers should be an integer >= 1",
            SettingKey::ClientProtocols =>
                "net.client.protocols should be a list of names separated by commas",
            SettingKey::RestfulPort => "net.client.restful.port should be an integer >= 1",
            SettingKey::DefaultInterval =>
                "retryPolicy.defaults.interval should have a valid DurationSequence syntax. Example: [1m, 5m, 1d]",
            SettingKey::DefaultMaxAttempts =>
                "retryPolicy.defaults.maxAttempts should be an integer >= 0",
            SettingKey::MaxIntervalLimit =>
                "retryPolicy.limit.maxInterval should have a valid Duration syntax. Example: 30m",
            SettingKey::MaxAttemptsLimit => "retryPolicy.limit.maxAttempts should be an integer >= 1",
        }
    }
}

/// No two settings have the same name.
pub proof fn lemma_names_differ(a: SettingKey, b: SettingKey)
    requires
        a != b,
    ensures
        a.name() != b.name(),
{
    reveal_strlit("cluster.authKey");
    reveal_strlit("cluster.controller.host");
    reveal_strlit("cluster.requestTimeout");
    reveal_strlit("db.deadMessages.retention");
    reveal_strlit("db.deliveredMessages.retention");
    reveal_strlit("msgproc.message_delivery_timeout");
    reveal_strlit("msgproc.workers");
    reveal_strlit("net.client.protocols");
    reveal_strlit("net.client.restful.port");
    reveal_strlit("retryPolicy.defaults.interval");
    reveal_strlit("retryPolicy.defaults.maxAttempts");
    reveal_strlit("retryPolicy.limit.maxInterval");
    reveal_strlit("retryPolicy.limit.maxAttempts");
    // Two names differ in length or in one of these three places.
    assert(a.name().len() != b.name().len() || a.name()[0] != b.name()[0] || a.name()[12]
        != b.name()[12] || a.name()[21] != b.name()[21]);
}

/// The number that `raw` denotes under the integer rule: a non-negative
/// integer literal whose value lies from `min` to `max`.
pub open spec fn integer_value(raw: Seq<char>, min: int, max: int) -> Option<int> {
    match unsigned_value(raw) {
        Some(n) => if min <= n <= max {
            Some(n)
        } else {
            None
        },
        None => None,
    }
}

/// The set that `raw` denotes under the rule for names: its pieces between
/// `,`, each trimmed.
pub open spec fn names_value(raw: Seq<char>) -> Set<Seq<char>> {
    split(raw, ',').map_values(|piece: Seq<char>| trim(piece)).to_set()
}

/// Whether `raw` follows `rule`.
pub open spec fn accepts(rule: DecodeRule, raw: Seq<char>) -> bool {
    match rule {
        DecodeRule::Text => true,
        DecodeRule::Integer { min, max } => integer_value(raw, min, max) is Some,
        DecodeRule::Duration => token_millis(raw) is Some,
        DecodeRule::DurationSequence => sequence_millis(raw) is Some,
        DecodeRule::Names => true,
    }
}

/// Decodes `raw` under the integer rule with the bounds `min` and `max`.
pub fn decode_integer(raw: &str, min: u64, max: u64) -> (number: Option<u64>)
    ensures
        match number {
            Some(n) => integer_value(raw@, min as int, max as int) == Some(n as int),
            None => integer_value(raw@, min as int, max as int) is None,
        },
{
    let v = chars_of(raw);
    assert(v@.subrange(0, v@.len() as int) =~= v@);
    match parse_unsigned(&v, 0, v.len(), max) {
        Some(n) => if n >= min {
            Some(n)
        } else {
            None
        },
        None => None,
    }
}

/// Decodes `raw` under the rule for names.
pub fn decode_names(raw: &str) -> (names: StringSet)
    ensures
        names@ == names_value(raw@),
{
    let v = chars_of(raw);
    let n = v.len();
    assert(v@.subrange(0, n as int) =~= v@);
    let pieces = split_ranges(&v, 0, n, ',');
    let ghost trimmed = split(raw@, ',').map_values(|piece: Seq<char>| trim(piece));
    let mut names = StringSet::new();
    let mut i: usize = 0;
    while i < pieces.len()
        invariant
            i <= pieces.len(),
            n == v.len(),
            v@ == raw@,
            trimmed == split(raw@, ',').map_values(|piece: Seq<char>| trim(piece)),
            pieces@.len() == trimmed.len(),
            forall|k: int|
                0 <= k < pieces@.len() ==> (#[trigger] pieces@[k]).0 <= pieces@[k].1 <= n,
            forall|k: int|
                0 <= k < pieces@.len() ==> v@.subrange(
                    (#[trigger] pieces@[k]).0 as int,
                    pieces@[k].1 as int,
                ) == split(raw@, ',')[k],
            names@ == trimmed.take(i as int).to_set(),
        decreases pieces.len() - i,
    {
        let piece = pieces[i];
        let (start, end) = trim_bounds(&v, piece.0, piece.1);
        let name = text_of(&v, start, end);
        proof {
            assert(trimmed.take(i + 1) =~= trimmed.take(i as int).push(trimmed[i as int]));
            trimmed.take(i as int).lemma_push_to_set_commute(trimmed[i as int]);
        }
        names.insert(name);
        i += 1;
    }
    assert(trimmed.take(i as int) =~= trimmed);
    names
}

} // verus!
