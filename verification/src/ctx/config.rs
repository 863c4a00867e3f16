//! The typed settings tree, its builder from decoded properties, the two
//! decoders of properties text and the fill-gaps-only merge.

use crate::ctx::properties::{decode_properties, properties_of, texts};
use crate::ctx::rules::{
    accepts, decode_integer, decode_names, integer_value, names_value, DecodeRule, SettingKey,
};
use crate::utils::string_set::StringSet;
use crate::utils::time::{
    sequence_millis, token_millis, Duration, DurationDeserializer, DurationSequence,
    DurationSequenceDeserializer,
};
use vstd::hash_map::StringHashMap;
use vstd::prelude::*;

verus! {

/// What an optional value is in the model: the view of the value it holds,
/// if it holds one.
pub open spec fn viewed<T: View>(value: Option<T>) -> Option<T::V> {
    match value {
        Some(v) => Some(v@),
        None => None,
    }
}

/// What an optional count is in the model: the number it holds, if it holds
/// one.
pub open spec fn counted<T: Integer>(value: Option<T>) -> Option<int> {
    match value {
        Some(n) => Some(n as int),
        None => None,
    }
}

/// The fill-gaps-only rule for one field: a target that is set stays as it
/// is, one that is not takes what the source has, which may be nothing.
pub open spec fn fill<T>(target: Option<T>, source: Option<T>) -> Option<T> {
    if target is Some {
        target
    } else {
        source
    }
}

/// The settings of the cluster, under the prefix `cluster.`.
#[derive(Debug)]
pub struct ClusterConfiguration {
    /// The token by which brokers authenticate to the cluster.
    pub auth_key: Option<String>,
    /// The host of the controller instance.
    pub controller_host: Option<String>,
    /// How long a request may take before it counts as timed out.
    pub request_timeout: Option<Duration>,
}

/// The model of `ClusterConfiguration`: texts, and a length in milliseconds.
pub struct ClusterView {
    pub auth_key: Option<Seq<char>>,
    pub controller_host: Option<Seq<char>>,
    pub request_timeout: Option<int>,
}

impl ClusterView {
    /// The group with no field set.
    pub open spec fn empty() -> ClusterView {
        ClusterView { auth_key: None, controller_host: None, request_timeout: None }
    }

    /// Whether every field is set.
    pub open spec fn populated(self) -> bool {
        self.auth_key is Some && self.controller_host is Some && self.request_timeout is Some
    }

    /// This group with its gaps filled from `source`.
    pub open spec fn overlay(self, source: ClusterView) -> ClusterView {
        ClusterView {
            auth_key: fill(self.auth_key, source.auth_key),
            controller_host: fill(self.controller_host, source.controller_host),
            request_timeout: fill(self.request_timeout, source.request_timeout),
        }
    }
}

impl View for ClusterConfiguration {
    type V = ClusterView;

    open spec fn view(&self) -> ClusterView {
        ClusterView {
            auth_key: viewed(self.auth_key),
            controller_host: viewed(self.controller_host),
            request_timeout: viewed(self.request_timeout),
        }
    }
}

impl ClusterConfiguration {
    /// The group with no field set.
    pub fn new() -> (group: ClusterConfiguration)
        ensures
            group@ == ClusterView::empty(),
    {
        ClusterConfiguration { auth_key: None, controller_host: None, request_timeout: None }
    }
}

/// The settings of the message database, under the prefix `db.`.
#[derive(Debug)]
pub struct DatabaseConfigurations {
    /// How long dead messages are kept before they are deleted.
    pub dead_messages_retention: Option<Duration>,
    /// How long delivered messages are kept before they are deleted.
    pub delivered_messages_retention: Option<Duration>,
}

/// The model of `DatabaseConfigurations`: lengths in milliseconds.
pub struct DatabaseView {
    pub dead_messages_retention: Option<int>,
    pub delivered_messages_retention: Option<int>,
}

impl DatabaseView {
    /// The group with no field set.
    pub open spec fn empty() -> DatabaseView {
        DatabaseView { dead_messages_retention: None, delivered_messages_retention: None }
    }

    /// Whether every field is set.
    pub open spec fn populated(self) -> bool {
        self.dead_messages_retention is Some && self.delivered_messages_retention is Some
    }

    /// This group with its gaps filled from `source`.
    pub open spec fn overlay(self, source: DatabaseView) -> DatabaseView {
        DatabaseView {
            dead_messages_retention: fill(
                self.dead_messages_retention,
                source.dead_messages_retention,
            ),
            delivered_messages_retention: fill(
                self.delivered_messages_retention,
                source.delivered_messages_retention,
            ),
        }
    }
}

impl View for DatabaseConfigurations {
    type V = DatabaseView;

    open spec fn view(&self) -> DatabaseView {
        DatabaseView {
            dead_messages_retention: viewed(self.dead_messages_retention),
            delivered_messages_retention: viewed(self.delivered_messages_retention),
        }
    }
}

impl DatabaseConfigurations {
    /// The group with no field set.
    pub fn new() -> (group: DatabaseConfigurations)
        ensures
            group@ == DatabaseView::empty(),
    {
        DatabaseConfigurations { dead_messages_retention: None, delivered_messages_retention: None }
    }
}

/// The settings of the message processor, under the prefix `msgproc.`.
#[derive(Debug)]
pub struct MessagesProcessorConfigurations {
    /// How long the delivery of a message may take before it counts as timed
    /// out.
    pub message_delivery_timeout: Option<Duration>,
    /// How many workers the broker keeps for sending messages.
    pub workers_count: Option<usize>,
}

/// The model of `MessagesProcessorConfigurations`: a length in milliseconds
/// and a count.
pub struct MessagesProcessorView {
    pub message_delivery_timeout: Option<int>,
    pub workers_count: Option<int>,
}

impl MessagesProcessorView {
    /// The group with no field set.
    pub open spec fn empty() -> MessagesProcessorView {
        MessagesProcessorView { message_delivery_timeout: None, workers_count: None }
    }

    /// Whether every field is set.
    pub open spec fn populated(self) -> bool {
        self.message_delivery_timeout is Some && self.workers_count is Some
    }

    /// This group with its gaps filled from `source`.
    pub open spec fn overlay(self, source: MessagesProcessorView) -> MessagesProcessorView {
        MessagesProcessorView {
            message_delivery_timeout: fill(
                self.message_delivery_timeout,
                source.message_delivery_timeout,
            ),
            workers_count: fill(self.workers_count, source.workers_count),
        }
    }
}

impl View for MessagesProcessorConfigurations {
    type V = MessagesProcessorView;

    open spec fn view(&self) -> MessagesProcessorView {
        MessagesProcessorView {
            message_delivery_timeout: viewed(self.message_delivery_timeout),
            workers_count: counted(self.workers_count),
        }
    }
}

impl MessagesProcessorConfigurations {
    /// The group with no field set.
    pub fn new() -> (group: MessagesProcessorConfigurations)
        ensures
            group@ == MessagesProcessorView::empty(),
    {
        MessagesProcessorConfigurations { message_delivery_timeout: None, workers_count: None }
    }
}

/// The settings of the network interfaces, under the prefix `net.`.
#[derive(Debug)]
pub struct NetworkingConfiguration {
    /// The protocols opened to clients, such as `restful`.
    pub client_protocols: Option<StringSet>,
    /// The port of the RESTful interface.
    pub restful_port: Option<u32>,
}

/// The model of `NetworkingConfiguration`: a set of texts and a port number.
pub struct NetworkingView {
    pub client_protocols: Option<Set<Seq<char>>>,
    pub restful_port: Option<int>,
}

impl NetworkingView {
    /// The group with no field set.
    pub open spec fn empty() -> NetworkingView {
        NetworkingView { client_protocols: None, restful_port: None }
    }

    /// Whether every field is set.
    pub open spec fn populated(self) -> bool {
        self.client_protocols is Some && self.restful_port is Some
    }

    /// This group with its gaps filled from `source`.
    pub open spec fn overlay(self, source: NetworkingView) -> NetworkingView {
        NetworkingView {
            client_protocols: fill(self.client_protocols, source.client_protocols),
            restful_port: fill(self.restful_port, source.restful_port),
        }
    }
}

impl View for NetworkingConfiguration {
    type V = NetworkingView;

    open spec fn view(&self) -> NetworkingView {
        NetworkingView {
            client_protocols: viewed(self.client_protocols),
            restful_port: counted(self.restful_port),
        }
    }
}

impl NetworkingConfiguration {
    /// The group with no field set.
    pub fn new() -> (group: NetworkingConfiguration)
        ensures
            group@ == NetworkingView::empty(),
    {
        NetworkingConfiguration { client_protocols: None, restful_port: None }
    }
}

/// The settings of the retry policy, under the prefix `retryPolicy.`.
#[derive(Debug)]
pub struct RetryPolicyConfiguration {
    /// The intervals between attempts for a message that names none.
    pub default_interval: Option<DurationSequence>,
    /// The number of attempts for a message that names none.
    pub default_max_attempts: Option<u16>,
    /// The longest interval that a message may ask for.
    pub max_interval_limit: Option<Duration>,
    /// The largest number of attempts that a message may ask for.
    pub max_attempts_limit: Option<u16>,
}

/// The model of `RetryPolicyConfiguration`: lengths in milliseconds and
/// counts.
pub struct RetryPolicyView {
    pub default_interval: Option<Seq<int>>,
    pub default_max_attempts: Option<int>,
    pub max_interval_limit: Option<int>,
    pub max_attempts_limit: Option<int>,
}

impl RetryPolicyView {
    /// The group with no field set.
    pub open spec fn empty() -> RetryPolicyView {
        RetryPolicyView {
            default_interval: None,
            default_max_attempts: None,
            max_interval_limit: None,
            max_attempts_limit: None,
        }
    }

    /// Whether every field is set.
    pub open spec fn populated(self) -> bool {
        self.default_interval is Some && self.default_max_attempts is Some
            && self.max_interval_limit is Some && self.max_attempts_limit is Some
    }

    /// This group with its gaps filled from `source`.
    pub open spec fn overlay(self, source: RetryPolicyView) -> RetryPolicyView {
        RetryPolicyView {
            default_interval: fill(self.default_interval, source.default_interval),
            default_max_attempts: fill(self.default_max_attempts, source.default_max_attempts),
            max_interval_limit: fill(self.max_interval_limit, source.max_interval_limit),
            max_attempts_limit: fill(self.max_attempts_limit, source.max_attempts_limit),
        }
    }
}

impl View for RetryPolicyConfiguration {
    type V = RetryPolicyView;

    open spec fn view(&self) -> RetryPolicyView {
        RetryPolicyView {
            default_interval: viewed(self.default_interval),
            default_max_attempts: counted(self.default_max_attempts),
            max_interval_limit: viewed(self.max_interval_limit),
            max_attempts_limit: counted(self.max_attempts_limit),
        }
    }
}

impl RetryPolicyConfiguration {
    /// The group with no field set.
    pub fn new() -> (group: RetryPolicyConfiguration)
        ensures
            group@ == RetryPolicyView::empty(),
    {
        RetryPolicyConfiguration {
            default_interval: None,
            default_max_attempts: None,
            max_interval_limit: None,
            max_attempts_limit: None,
        }
    }
}

/// The settings of a node, in five groups. A field that is `None` was not
/// configured; it stands for no default.
#[derive(Debug)]
pub struct Configuration {
    /// The settings under the prefix `cluster.`.
    pub cluster: ClusterConfiguration,
    /// The settings under the prefix `db.`.
    pub database: DatabaseConfigurations,
    /// The settings under the prefix `msgproc.`.
    pub messages_processor: MessagesProcessorConfigurations,
    /// The settings under the prefix `net.`.
    pub networking: NetworkingConfiguration,
    /// The settings under the prefix `retryPolicy.`.
    pub retry_policy: RetryPolicyConfiguration,
}

/// The model of `Configuration`.
pub struct ConfigurationView {
    pub cluster: ClusterView,
    pub database: DatabaseView,
    pub messages_processor: MessagesProcessorView,
    pub networking: NetworkingView,
    pub retry_policy: RetryPolicyView,
}

impl ConfigurationView {
    /// The settings with no field set.
    pub open spec fn empty() -> ConfigurationView {
        ConfigurationView {
            cluster: ClusterView::empty(),
            database: DatabaseView::empty(),
            messages_processor: MessagesProcessorView::empty(),
            networking: NetworkingView::empty(),
            retry_policy: RetryPolicyView::empty(),
        }
    }

    /// Whether every field of every group is set.
    pub open spec fn populated(self) -> bool {
        self.cluster.populated() && self.database.populated()
            && self.messages_processor.populated() && self.networking.populated()
            && self.retry_policy.populated()
    }

    /// These settings with their gaps filled from `source`: each field that
    /// is set stays, each that is not takes what `source` has there.
    pub open spec fn overlay(self, source: ConfigurationView) -> ConfigurationView {
        ConfigurationView {
            cluster: self.cluster.overlay(source.cluster),
            database: self.database.overlay(source.database),
            messages_processor: self.messages_processor.overlay(source.messages_processor),
            networking: self.networking.overlay(source.networking),
            retry_policy: self.retry_policy.overlay(source.retry_policy),
        }
    }
}

impl View for Configuration {
    type V = ConfigurationView;

    open spec fn view(&self) -> ConfigurationView {
        ConfigurationView {
            cluster: self.cluster@,
            database: self.database@,
            messages_processor: self.messages_processor@,
            networking: self.networking@,
            retry_policy: self.retry_policy@,
        }
    }
}

/// Why settings could not be resolved.
#[derive(Debug)]
pub enum ConfigurationErrorCauses {
    /// The configuration file could not be read.
    FailedToReadConfigurationFile,
    /// The value of a setting does not follow the rule of that setting.
    ParseFailure { key: SettingKey, raw_value: String },
}

/// A failure to resolve settings: its cause and, in `reason`, what a reader
/// needs to mend it. For a value that was refused that is the description
/// of the values the setting accepts.
#[derive(Debug)]
pub struct ConfigurationError {
    pub cause: ConfigurationErrorCauses,
    pub reason: String,
}

impl ConfigurationErrorCauses {
    /// What `message` says of the cause.
    pub open spec fn message_text(self) -> Seq<char> {
        match self {
            ConfigurationErrorCauses::FailedToReadConfigurationFile =>
                "An error occur while trying to read the configuration file"@,
            ConfigurationErrorCauses::ParseFailure { key, raw_value } => "The value `"@
                + raw_value@ + "` of the setting `"@ + key.name() + "` is not accepted"@,
        }
    }

    /// The cause in words. A refused value is named with its setting.
    pub fn message(&self) -> (text: String)
        ensures
            text@ == self.message_text(),
    {
        match self {
            ConfigurationErrorCauses::FailedToReadConfigurationFile => String::from_str(
                "An error occur while trying to read the configuration file",
            ),
            ConfigurationErrorCauses::ParseFailure { key, raw_value } => {
                let mut text = String::from_str("The value `");
                text.append(raw_value.as_str());
                text.append("` of the setting `");
                text.append(key.as_str());
                text.append("` is not accepted");
                text
            },
        }
    }
}

impl ConfigurationError {
    /// What `message` says of the error.
    pub open spec fn message_text(self) -> Seq<char> {
        "An "@ + self.cause.message_text() + " error occur. Error message: "@
            + self.cause.message_text() + ". Details: "@ + self.reason@
    }

    /// The error in words: its cause, and the reason as the details.
    pub fn message(&self) -> (text: String)
        ensures
            text@ == self.message_text(),
    {
        let cause = self.cause.message();
        let mut text = String::from_str("An ");
        text.append(cause.as_str());
        text.append(" error occur. Error message: ");
        text.append(cause.as_str());
        text.append(". Details: ");
        text.append(self.reason.as_str());
        text
    }

    /// Whether this is the refusal of the value `raw` for the setting `key`,
    /// with the description of what `key` accepts as its reason.
    pub open spec fn is_parse_failure(self, key: SettingKey, raw: Seq<char>) -> bool {
        &&& self.cause matches ConfigurationErrorCauses::ParseFailure { key: k, raw_value }
        &&& k == key
        &&& raw_value@ == raw
        &&& self.reason@ == key.expected()
    }

    /// Whether this is a failure to read the configuration file, with
    /// `reason` as its reason.
    pub open spec fn is_read_failure(self, reason: Seq<char>) -> bool {
        &&& self.cause is FailedToReadConfigurationFile
        &&& self.reason@ == reason
    }

    /// The refusal of the value `raw_value` for the setting `key`.
    pub fn parse_failure(key: SettingKey, raw_value: &str) -> (error: ConfigurationError)
        ensures
            error.is_parse_failure(key, raw_value@),
    {
        ConfigurationError {
            cause: ConfigurationErrorCauses::ParseFailure { key, raw_value: raw_value.to_owned() },
            reason: key.expected_grammar().to_owned(),
        }
    }

    /// The failure to read the configuration file; `reason` says what went
    /// wrong, and for which path.
    pub fn read_failure(reason: String) -> (error: ConfigurationError)
        ensures
            error.is_read_failure(reason@),
    {
        ConfigurationError {
            cause: ConfigurationErrorCauses::FailedToReadConfigurationFile,
            reason,
        }
    }
}

/// The raw value of the setting `key` in `properties`, if it has one.
pub open spec fn lookup(properties: Map<Seq<char>, Seq<char>>, key: SettingKey) -> Option<
    Seq<char>,
> {
    if properties.contains_key(key.name()) {
        Some(properties[key.name()])
    } else {
        None
    }
}

/// Whether `properties` holds a value for `key` that does not follow the
/// rule of `key`.
pub open spec fn rejected(properties: Map<Seq<char>, Seq<char>>, key: SettingKey) -> bool {
    match lookup(properties, key) {
        Some(raw) => !accepts(key.rule(), raw),
        None => false,
    }
}

/// The number that `properties` gives for the integer setting `key`.
pub open spec fn integer_setting(properties: Map<Seq<char>, Seq<char>>, key: SettingKey) -> Option<
    int,
> {
    match (lookup(properties, key), key.rule()) {
        (Some(raw), DecodeRule::Integer { min, max }) => integer_value(raw, min, max),
        _ => None,
    }
}

/// The length in milliseconds that `properties` gives for the duration
/// setting `key`.
pub open spec fn duration_setting(
    properties: Map<Seq<char>, Seq<char>>,
    key: SettingKey,
) -> Option<int> {
    match lookup(properties, key) {
        Some(raw) => token_millis(raw),
        None => None,
    }
}

/// The lengths in milliseconds that `properties` gives for the duration
/// sequence setting `key`.
pub open spec fn sequence_setting(
    properties: Map<Seq<char>, Seq<char>>,
    key: SettingKey,
) -> Option<Seq<int>> {
    match lookup(properties, key) {
        Some(raw) => sequence_millis(raw),
        None => None,
    }
}

/// The set of names that `properties` gives for the setting `key`.
pub open spec fn names_setting(properties: Map<Seq<char>, Seq<char>>, key: SettingKey) -> Option<
    Set<Seq<char>>,
> {
    match lookup(properties, key) {
        Some(raw) => Some(names_value(raw)),
        None => None,
    }
}

/// The first setting, in the order in which settings are decoded, whose value
/// in `properties` is refused. Settings that take any text are never
/// refused.
pub open spec fn first_rejected(properties: Map<Seq<char>, Seq<char>>) -> Option<SettingKey> {
    if rejected(properties, SettingKey::ClusterRequestTimeout) {
        Some(SettingKey::ClusterRequestTimeout)
    } else if rejected(properties, SettingKey::DeadMessagesRetention) {
        Some(SettingKey::DeadMessagesRetention)
    } else if rejected(properties, SettingKey::DeliveredMessagesRetention) {
        Some(SettingKey::DeliveredMessagesRetention)
    } else if rejected(properties, SettingKey::MessageDeliveryTimeout) {
        Some(SettingKey::MessageDeliveryTimeout)
    } else if rejected(properties, SettingKey::Workers) {
        Some(SettingKey::Workers)
    } else if rejected(properties, SettingKey::RestfulPort) {
        Some(SettingKey::RestfulPort)
    } else if rejected(properties, SettingKey::DefaultInterval) {
        Some(SettingKey::DefaultInterval)
    } else if rejected(properties, SettingKey::DefaultMaxAttempts) {
        Some(SettingKey::DefaultMaxAttempts)
    } else if rejected(properties, SettingKey::MaxIntervalLimit) {
        Some(SettingKey::MaxIntervalLimit)
    } else if rejected(properties, SettingKey::MaxAttemptsLimit) {
        Some(SettingKey::MaxAttemptsLimit)
    } else {
        None
    }
}

/// The settings that `properties` gives where none of its values is
/// refused: each field holds what its setting decodes to, and is not set
/// where `properties` has no value for the setting. Keys that name no
/// setting play no part.
pub open spec fn settings_of(properties: Map<Seq<char>, Seq<char>>) -> ConfigurationView {
    ConfigurationView {
        cluster: ClusterView {
            auth_key: lookup(properties, SettingKey::ClusterAuthKey),
            controller_host: lookup(properties, SettingKey::ClusterControllerHost),
            request_timeout: integer_setting(properties, SettingKey::ClusterRequestTimeout),
        },
        database: DatabaseView {
            dead_messages_retention: duration_setting(
                properties,
                SettingKey::DeadMessagesRetention,
            ),
            delivered_messages_retention: duration_setting(
                properties,
                SettingKey::DeliveredMessagesRetention,
            ),
        },
        messages_processor: MessagesProcessorView {
            message_delivery_timeout: integer_setting(
                properties,
                SettingKey::MessageDeliveryTimeout,
            ),
            workers_count: integer_setting(properties, SettingKey::Workers),
        },
        networking: NetworkingView {
            client_protocols: names_setting(properties, SettingKey::ClientProtocols),
            restful_port: integer_setting(properties, SettingKey::RestfulPort),
        },
        retry_policy: RetryPolicyView {
            default_interval: sequence_setting(properties, SettingKey::DefaultInterval),
            default_max_attempts: integer_setting(properties, SettingKey::DefaultMaxAttempts),
            max_interval_limit: duration_setting(properties, SettingKey::MaxIntervalLimit),
            max_attempts_limit: integer_setting(properties, SettingKey::MaxAttemptsLimit),
        },
    }
}

/// What building settings from `properties` gives: the settings, or the
/// setting whose value is refused first.
pub open spec fn decode_settings(properties: Map<Seq<char>, Seq<char>>) -> Result<
    ConfigurationView,
    SettingKey,
> {
    match first_rejected(properties) {
        Some(key) => Err(key),
        None => Ok(settings_of(properties)),
    }
}

/// Fills `target` from `source` where it is not set.
fn fill_value<T: Copy>(target: &mut Option<T>, source: &Option<T>)
    ensures
        *final(target) == fill(*old(target), *source),
{
    if target.is_none() {
        *target = *source;
    }
}

/// Fills `target` from `source` where it is not set.
fn fill_text(target: &mut Option<String>, source: &Option<String>)
    ensures
        viewed(*final(target)) == fill(viewed(*old(target)), viewed(*source)),
{
    if target.is_none() {
        *target = match source {
            Some(text) => Some(text.clone()),
            None => None,
        };
    }
}

/// Fills `target` from `source` where it is not set.
fn fill_names(target: &mut Option<StringSet>, source: &Option<StringSet>)
    ensures
        viewed(*final(target)) == fill(viewed(*old(target)), viewed(*source)),
{
    if target.is_none() {
        *target = match source {
            Some(names) => Some(names.clone()),
            None => None,
        };
    }
}

/// Fills `target` from `source` where it is not set.
fn fill_sequence(target: &mut Option<DurationSequence>, source: &Option<DurationSequence>)
    ensures
        viewed(*final(target)) == fill(viewed(*old(target)), viewed(*source)),
{
    if target.is_none() {
        *target = match source {
            Some(sequence) => Some(sequence.clone()),
            None => None,
        };
    }
}

/// The raw value of the setting `key` in `properties`, if it has one.
fn raw_value<'a>(properties: &'a StringHashMap<String>, key: SettingKey) -> (raw: Option<
    &'a String,
>)
    ensures
        viewed(raw) == lookup(texts(properties@), key),
{
    properties.get(key.as_str())
}

/// Decodes the text setting `key`.
fn text_at(properties: &StringHashMap<String>, key: SettingKey) -> (value: Option<String>)
    ensures
        viewed(value) == lookup(texts(properties@), key),
{
    match raw_value(properties, key) {
        Some(raw) => Some(raw.clone()),
        None => None,
    }
}

/// Decodes the integer setting `key`, whose rule has the bounds `min` and
/// `max`.
fn integer_at(properties: &StringHashMap<String>, key: SettingKey, min: u64, max: u64) -> (value:
    Result<Option<u64>, ConfigurationError>)
    requires
        key.rule() == (DecodeRule::Integer { min: min as int, max: max as int }),
    ensures
        match value {
            Ok(number) => !rejected(texts(properties@), key) && counted(number) == integer_setting(
                texts(properties@),
                key,
            ),
            Err(error) => rejected(texts(properties@), key) && error.is_parse_failure(
                key,
                texts(properties@)[key.name()],
            ),
        },
{
    match raw_value(properties, key) {
        Some(raw) => match decode_integer(raw.as_str(), min, max) {
            Some(number) => Ok(Some(number)),
            None => Err(ConfigurationError::parse_failure(key, raw.as_str())),
        },
        None => Ok(None),
    }
}

/// Decodes the duration setting `key`.
fn duration_at(properties: &StringHashMap<String>, key: SettingKey) -> (value: Result<
    Option<Duration>,
    ConfigurationError,
>)
    requires
        key.rule() == DecodeRule::Duration,
    ensures
        match value {
            Ok(duration) => !rejected(texts(properties@), key) && viewed(duration)
                == duration_setting(texts(properties@), key),
            Err(error) => rejected(texts(properties@), key) && error.is_parse_failure(
                key,
                texts(properties@)[key.name()],
            ),
        },
{
    match raw_value(properties, key) {
        Some(raw) => match raw.as_str().to_duration() {
            Ok(duration) => Ok(Some(duration)),
            Err(_) => Err(ConfigurationError::parse_failure(key, raw.as_str())),
        },
        None => Ok(None),
    }
}

/// Decodes the duration sequence setting `key`.
fn sequence_at(properties: &StringHashMap<String>, key: SettingKey) -> (value: Result<
    Option<DurationSequence>,
    ConfigurationError,
>)
    requires
        key.rule() == DecodeRule::DurationSequence,
    ensures
        match value {
            Ok(sequence) => !rejected(texts(properties@), key) && viewed(sequence)
                == sequence_setting(texts(properties@), key),
            Err(error) => rejected(texts(properties@), key) && error.is_parse_failure(
                key,
                texts(properties@)[key.name()],
            ),
        },
{
    match raw_value(properties, key) {
        Some(raw) => match raw.as_str().to_duration_sequence() {
            Ok(sequence) => Ok(Some(sequence)),
            Err(_) => Err(ConfigurationError::parse_failure(key, raw.as_str())),
        },
        None => Ok(None),
    }
}

/// Decodes the names setting `key`.
fn names_at(properties: &StringHashMap<String>, key: SettingKey) -> (value: Option<StringSet>)
    ensures
        viewed(value) == names_setting(texts(properties@), key),
{
    match raw_value(properties, key) {
        Some(raw) => Some(decode_names(raw.as_str())),
        None => None,
    }
}

impl Configuration {
    /// The settings with no field set.
    pub fn new() -> (configuration: Configuration)
        ensures
            configuration@ == ConfigurationView::empty(),
    {
        Configuration {
            cluster: ClusterConfiguration::new(),
            database: DatabaseConfigurations::new(),
            messages_processor: MessagesProcessorConfigurations::new(),
            networking: NetworkingConfiguration::new(),
            retry_policy: RetryPolicyConfiguration::new(),
        }
    }

    /// Builds settings from a property map. Each setting that the map has a
    /// value for is decoded by its rule; a setting that the map does not
    /// name stays unset; keys that name no setting are passed over. The
    /// first value that its rule refuses, in the order in which the fields
    /// stand, makes the whole fail with a `ParseFailure` that names the
    /// setting, the value and what the setting accepts.
    pub fn from_map(map: &StringHashMap<String>) -> (built: Result<
        Configuration,
        ConfigurationError,
    >)
        ensures
            match decode_settings(texts(map@)) {
                Ok(settings) => built is Ok && built->Ok_0@ == settings,
                Err(key) => built is Err && built->Err_0.is_parse_failure(
                    key,
                    texts(map@)[key.name()],
                ),
            },
    {
        let mut configuration = Configuration::new();

        configuration.cluster.auth_key = text_at(map, SettingKey::ClusterAuthKey);
        configuration.cluster.controller_host = text_at(map, SettingKey::ClusterControllerHost);
        configuration.cluster.request_timeout = match integer_at(
            map,
            SettingKey::ClusterRequestTimeout,
            0,
            i64::MAX as u64,
        ) {
            Ok(Some(millis)) => Some(Duration::milliseconds(millis as i64)),
            Ok(None) => None,
            Err(error) => {
                return Err(error);
            },
        };

        configuration.database.dead_messages_retention = match duration_at(
            map,
            SettingKey::DeadMessagesRetention,
        ) {
            Ok(retention) => retention,
            Err(error) => {
                return Err(error);
            },
        };
        configuration.database.delivered_messages_retention = match duration_at(
            map,
            SettingKey::DeliveredMessagesRetention,
        ) {
            Ok(retention) => retention,
            Err(error) => {
                return Err(error);
            },
        };

        configuration.messages_processor.message_delivery_timeout = match integer_at(
            map,
            SettingKey::MessageDeliveryTimeout,
            0,
            i64::MAX as u64,
        ) {
            Ok(Some(millis)) => Some(Duration::milliseconds(millis as i64)),
            Ok(None) => None,
            Err(error) => {
                return Err(error);
            },
        };
        configuration.messages_processor.workers_count = match integer_at(
            map,
            SettingKey::Workers,
            1,
            usize::MAX as u64,
        ) {
            Ok(Some(count)) => Some(count as usize),
            Ok(None) => None,
            Err(error) => {
                return Err(error);
            },
        };

        configuration.networking.client_protocols = names_at(map, SettingKey::ClientProtocols);
        configuration.networking.restful_port = match integer_at(
            map,
            SettingKey::RestfulPort,
            1,
            u32::MAX as u64,
        ) {
            Ok(Some(port)) => Some(port as u32),
            Ok(None) => None,
            Err(error) => {
                return Err(error);
            },
        };

        configuration.retry_policy.default_interval = match sequence_at(
            map,
            SettingKey::DefaultInterval,
        ) {
            Ok(interval) => interval,
            Err(error) => {
                return Err(error);
            },
        };
        configuration.retry_policy.default_max_attempts = match integer_at(
            map,
            SettingKey::DefaultMaxAttempts,
            0,
            u16::MAX as u64,
        ) {
            Ok(Some(attempts)) => Some(attempts as u16),
            Ok(None) => None,
            Err(error) => {
                return Err(error);
            },
        };
        configuration.retry_policy.max_interval_limit = match duration_at(
            map,
            SettingKey::MaxIntervalLimit,
        ) {
            Ok(limit) => limit,
            Err(error) => {
                return Err(error);
            },
        };
        configuration.retry_policy.max_attempts_limit = match integer_at(
            map,
            SettingKey::MaxAttemptsLimit,
            1,
            u16::MAX as u64,
        ) {
            Ok(Some(attempts)) => Some(attempts as u16),
            Ok(None) => None,
            Err(error) => {
                return Err(error);
            },
        };

        Ok(configuration)
    }

    /// Builds settings from the content of a properties file.
    pub fn from_properties(file_content: &str) -> (built: Result<Configuration, ConfigurationError>)
        ensures
            match decode_settings(properties_of(file_content@, '\n')) {
                Ok(settings) => built is Ok && built->Ok_0@ == settings,
                Err(key) => built is Err && built->Err_0.is_parse_failure(
                    key,
                    properties_of(file_content@, '\n')[key.name()],
                ),
            },
    {
        let properties = properties_file_content_to_map(file_content);
        Configuration::from_map(&properties)
    }

    /// Resolves the settings of a node from the content of its properties
    /// file and, where there is one, the override that the environment
    /// holds, written as properties with `;` between them. The file comes
    /// first: the override only fills what the file leaves unset. A value
    /// that is refused in either makes the whole fail, the file's before the
    /// override's.
    pub fn resolve(file_content: &str, environment: Option<&str>) -> (resolved: Result<
        Configuration,
        ConfigurationError,
    >)
        ensures
            match (decode_settings(properties_of(file_content@, '\n')), environment) {
                (Err(key), _) => resolved is Err && resolved->Err_0.is_parse_failure(
                    key,
                    properties_of(file_content@, '\n')[key.name()],
                ),
                (Ok(from_file), None) => resolved is Ok && resolved->Ok_0@ == from_file,
                (Ok(from_file), Some(inline)) => match decode_settings(
                    properties_of(inline@, ';'),
                ) {
                    Ok(from_environment) => resolved is Ok && resolved->Ok_0@ == from_file.overlay(
                        from_environment,
                    ),
                    Err(key) => resolved is Err && resolved->Err_0.is_parse_failure(
                        key,
                        properties_of(inline@, ';')[key.name()],
                    ),
                },
            },
    {
        let mut configuration = match Configuration::from_properties(file_content) {
            Ok(configuration) => configuration,
            Err(error) => {
                return Err(error);
            },
        };
        match environment {
            Some(inline) => {
                let properties = properties_separate_by_semicolon_to_map(inline);
                match Configuration::from_map(&properties) {
                    Ok(overrides) => {
                        configuration.merge(&overrides);
                    },
                    Err(error) => {
                        return Err(error);
                    },
                }
            },
            None => {},
        }
        Ok(configuration)
    }

    /// Fills the gaps of these settings from `other`: a field that is set is
    /// left as it is, a field that is not takes the value that `other` has
    /// there, if any. Nothing is checked and nothing can fail.
    pub fn merge(&mut self, other: &Configuration)
        ensures
            final(self)@ == old(self)@.overlay(other@),
    {
        fill_text(&mut self.cluster.auth_key, &other.cluster.auth_key);
        fill_text(&mut self.cluster.controller_host, &other.cluster.controller_host);
        fill_value(&mut self.cluster.request_timeout, &other.cluster.request_timeout);

        fill_value(
            &mut self.database.dead_messages_retention,
            &other.database.dead_messages_retention,
        );
        fill_value(
            &mut self.database.delivered_messages_retention,
            &other.database.delivered_messages_retention,
        );

        fill_value(
            &mut self.messages_processor.message_delivery_timeout,
            &other.messages_processor.message_delivery_timeout,
        );
        fill_value(
            &mut self.messages_processor.workers_count,
            &other.messages_processor.workers_count,
        );

        fill_names(&mut self.networking.client_protocols, &other.networking.client_protocols);
        fill_value(&mut self.networking.restful_port, &other.networking.restful_port);

        fill_sequence(&mut self.retry_policy.default_interval, &other.retry_policy.default_interval);
        fill_value(
            &mut self.retry_policy.default_max_attempts,
            &other.retry_policy.default_max_attempts,
        );
        fill_value(
            &mut self.retry_policy.max_interval_limit,
            &other.retry_policy.max_interval_limit,
        );
        fill_value(
            &mut self.retry_policy.max_attempts_limit,
            &other.retry_policy.max_attempts_limit,
        );
    }
}

/// Decodes the content of a properties file: one `key=value` record on each
/// line. Lines are trimmed; empty lines, lines that start with `#` and lines
/// without `=` are left out; a value may hold `=`; of two lines with the
/// same key the later one counts. Neither keys nor values are checked.
pub fn properties_file_content_to_map(file_content: &str) -> (properties: StringHashMap<String>)
    ensures
        texts(properties@) == properties_of(file_content@, '\n'),
{
    decode_properties(file_content, '\n')
}

/// Decodes properties written on one line, such as
/// `akey=avalue; bkey=bvalue`: the records stand between `;` and are read
/// as the lines of a properties file are.
pub fn properties_separate_by_semicolon_to_map(content: &str) -> (properties: StringHashMap<
    String,
>)
    ensures
        texts(properties@) == properties_of(content@, ';'),
{
    decode_properties(content, ';')
}

/// Precedence. Settings in which every field is set come out of a merge as
/// they went in, whatever the source holds: the source never overrides.
pub proof fn lemma_populated_target_wins(target: ConfigurationView, source: ConfigurationView)
    requires
        target.populated(),
    ensures
        target.overlay(source) == target,
{
}

/// Settings in which no field is set come out of a merge equal to the
/// source, field by field.
pub proof fn lemma_empty_target_adopts_source(source: ConfigurationView)
    ensures
        ConfigurationView::empty().overlay(source) == source,
{
}

/// Layering. Merging one source after another gives what merging the two
/// sources first and the result afterwards gives: each field keeps the first
/// value seen for it.
pub proof fn lemma_overlay_layers(
    target: ConfigurationView,
    first: ConfigurationView,
    second: ConfigurationView,
)
    ensures
        target.overlay(first).overlay(second) == target.overlay(first.overlay(second)),
{
}

/// A key that names no setting plays no part: with or without it the
/// properties give the same settings, or refuse the same value.
pub proof fn lemma_unknown_key_is_passed_over(
    properties: Map<Seq<char>, Seq<char>>,
    key: Seq<char>,
    value: Seq<char>,
)
    requires
        forall|setting: SettingKey| setting.name() != key,
    ensures
        decode_settings(properties.insert(key, value)) == decode_settings(properties),
        forall|setting: SettingKey|
            lookup(properties.insert(key, value), setting) == lookup(properties, setting),
{
}

} // verus!
