use angler::ctx::config::{
    properties_file_content_to_map, properties_separate_by_semicolon_to_map, Configuration,
};

const TEST_CONF_PROPERTIES_FILE: &'static str = r#"

# Cluster configurations
cluster.authKey=abcd1234
cluster.controller.host=webhooks.my-web.services
cluster.requestTimeout=10000

# Database properties
db.deadMessages.retention=30d
db.deliveredMessages.retention=30d

# Message Processor configurations
msgproc.message_delivery_timeout=10000
msgproc.workers=500

# Configuration about the client net communication interface
net.client.protocols=restful
net.client.restful.port=80

# The default values set on retryPolicy if not set by the client
retryPolicy.defaults.interval=1d
retryPolicy.defaults.maxAttempts=7

# The limit (max or min) of interval and resend attempts
retryPolicy.limit.maxInterval=30d
retryPolicy.limit.maxAttempts=20
    
    "#;

const TEST_CONF_PROPERTIES_FILE_SEMICOLON: &'static str = "
cluster.authKey=abcd1234;
cluster.controller.host=webhooks.my-web.services;
cluster.requestTimeout=10000;
db.deadMessages.retention=30d;
db.deliveredMessages.retention=30d;
msgproc.message_delivery_timeout=10000;
msgproc.workers=500;
net.client.protocols=restful;
net.client.restful.port=80;
retryPolicy.defaults.interval=1d;
retryPolicy.defaults.maxAttempts=7;
retryPolicy.limit.maxInterval=30d;
retryPolicy.limit.maxAttempts=20;
";

fn assert_configuration_has_all_props(conf: &Configuration) {
    assert_eq!(conf.cluster.auth_key.as_ref().unwrap(), "abcd1234");
    assert_eq!(conf.cluster.controller_host.as_ref().unwrap(), "webhooks.my-web.services");
    assert_eq!(conf.cluster.request_timeout.unwrap().whole_milliseconds(), 10000);

    assert_eq!(conf.database.dead_messages_retention.unwrap().whole_days(), 30);
    assert_eq!(conf.database.delivered_messages_retention.unwrap().whole_days(), 30);

    assert_eq!(conf.messages_processor.message_delivery_timeout.unwrap().whole_milliseconds(), 10000);
    assert_eq!(conf.messages_processor.workers_count.unwrap(), 500);

    assert!(conf.networking.client_protocols.as_ref().unwrap().contains("restful"));
    assert_eq!(conf.networking.restful_port.unwrap(), 80);

    assert_eq!(conf.retry_policy.default_interval.as_ref().unwrap().total_duration().whole_days(), 1);
    assert_eq!(conf.retry_policy.default_max_attempts.unwrap(), 7);

    assert_eq!(conf.retry_policy.max_interval_limit.unwrap().whole_days(), 30);
    assert_eq!(conf.retry_policy.max_attempts_limit.unwrap(), 20);
}

#[test]
fn test_properties_file_content_to_map_from_a_config_file() {
    let map = properties_file_content_to_map(&TEST_CONF_PROPERTIES_FILE);
    assert_eq!(map.get("cluster.authKey").unwrap(), "abcd1234");
    assert_eq!(map.get("cluster.controller.host").unwrap(), "webhooks.my-web.services");
    assert_eq!(map.get("cluster.requestTimeout").unwrap(), "10000");

    assert_eq!(map.get("db.deadMessages.retention").unwrap(), "30d");
    assert_eq!(map.get("db.deliveredMessages.retention").unwrap(), "30d");

    assert_eq!(map.get("msgproc.message_delivery_timeout").unwrap(), "10000");
    assert_eq!(map.get("msgproc.workers").unwrap(), "500");

    assert_eq!(map.get("net.client.protocols").unwrap(), "restful");
    assert_eq!(map.get("net.client.restful.port").unwrap(), "80");

    assert_eq!(map.get("retryPolicy.defaults.interval").unwrap(), "1d");
    assert_eq!(map.get("retryPolicy.defaults.maxAttempts").unwrap(), "7");

    assert_eq!(map.get("retryPolicy.limit.maxInterval").unwrap(), "30d");
    assert_eq!(map.get("retryPolicy.limit.maxAttempts").unwrap(), "20");
}

#[test]
fn test_if_all_configurations_are_set_in_configuration_struct_from_hash_map() {
    let conf =
        Configuration::from_map(&properties_file_content_to_map(&TEST_CONF_PROPERTIES_FILE)).unwrap();
    assert_configuration_has_all_props(&conf);
}

#[test]
fn test_if_all_configurations_are_set_in_semicolon_conf_string_from_hash_map() {
    let conf = Configuration::from_map(&properties_separate_by_semicolon_to_map(
        &TEST_CONF_PROPERTIES_FILE_SEMICOLON,
    ))
    .unwrap();
    assert_configuration_has_all_props(&conf);
}

#[test]
fn test_if_configurations_are_correctly_loaded_from_file() {
    let conf = Configuration::from_properties(TEST_CONF_PROPERTIES_FILE).unwrap();
    assert_configuration_has_all_props(&conf);
}

#[test]
fn test_configuration_merge() {
    let mut will_be_merged_conf = Configuration::new();
    let conf_with_all_fields = Configuration::from_properties(TEST_CONF_PROPERTIES_FILE).unwrap();
    will_be_merged_conf.merge(&conf_with_all_fields);

    // ClusterConfiguration assertions
    assert_ne!(will_be_merged_conf.cluster.auth_key, None);
    assert_ne!(will_be_merged_conf.cluster.controller_host, None);
    assert_ne!(will_be_merged_conf.cluster.request_timeout, None);

    // DatabaseConfigurations assertions
    assert_ne!(will_be_merged_conf.database.dead_messages_retention, None);
    assert_ne!(will_be_merged_conf.database.delivered_messages_retention, None);

    // MessagesProcessorConfigurations assertions
    assert_ne!(will_be_merged_conf.messages_processor.message_delivery_timeout, None);
    assert_ne!(will_be_merged_conf.messages_processor.workers_count, None);

    // NetworkingConfiguration assertions
    assert_ne!(will_be_merged_conf.networking.client_protocols, None);
    assert_ne!(will_be_merged_conf.networking.restful_port, None);

    // RetryPolicyConfiguration assertions
    assert_ne!(will_be_merged_conf.retry_policy.default_interval, None);
    assert_ne!(will_be_merged_conf.retry_policy.default_max_attempts, None);
    assert_ne!(will_be_merged_conf.retry_policy.max_interval_limit, None);
    assert_ne!(will_be_merged_conf.retry_policy.max_attempts_limit, None);
}
