use graffiti::cli::CLIArgs;
use graffiti::pipeline::{targets_to_open, StartupError};
use graffiti::subscription::Subscription;
use graffiti::target::{AddressError, Configuration, ServerTarget};
use std::path::PathBuf;

fn texts(addresses: &[&str]) -> Vec<String> {
    addresses.iter().map(|a| a.to_string()).collect()
}

#[test]
fn address_is_kept_in_the_normal_form_of_the_url() {
    let target = ServerTarget::parse("wss://relay.example.com").unwrap();
    assert_eq!(target.address(), "wss://relay.example.com/");
    let target = ServerTarget::parse("WSS://Relay.Example.COM:443/stream").unwrap();
    assert_eq!(target.address(), "wss://relay.example.com/stream");
    let target = ServerTarget::parse("ws://127.0.0.1:8080/").unwrap();
    assert_eq!(target.address(), "ws://127.0.0.1:8080/");
}

#[test]
fn text_that_is_no_absolute_url_is_no_target() {
    assert!(ServerTarget::parse("").is_none());
    assert!(ServerTarget::parse("relay.example.com").is_none());
    assert!(ServerTarget::parse("/only/a/path").is_none());
    assert!(ServerTarget::parse("wss://").is_none());
}

#[test]
fn duplicate_of_a_target_has_its_address() {
    let target = ServerTarget::parse("wss://relay.example.com/a").unwrap();
    assert_eq!(target.duplicate(), target);
    assert_eq!(target.duplicate().address(), "wss://relay.example.com/a");
}

#[test]
fn configuration_keeps_the_order_and_the_repeats() {
    let configuration = Configuration::from_addresses(&texts(&[
        "wss://b.example.com",
        "wss://a.example.com",
        "wss://b.example.com",
    ]))
    .unwrap();
    assert_eq!(configuration.len(), 3);
    assert!(!configuration.is_empty());
    let relays = configuration.relays();
    let addresses: Vec<&str> = relays.iter().map(|t| t.address()).collect();
    assert_eq!(
        addresses,
        vec!["wss://b.example.com/", "wss://a.example.com/", "wss://b.example.com/"]
    );
}

#[test]
fn first_malformed_address_is_reported_by_its_position() {
    let result = Configuration::from_addresses(&texts(&[
        "wss://a.example.com",
        "not a url",
        "wss://c.example.com",
        "also none",
    ]));
    assert_eq!(result.unwrap_err(), AddressError::Malformed(1));
    let result = Configuration::from_addresses(&texts(&["nothing"]));
    assert_eq!(result.unwrap_err(), AddressError::Malformed(0));
}

#[test]
fn default_configuration_lists_no_server() {
    let configuration = Configuration::default();
    assert!(configuration.is_empty());
    assert_eq!(configuration.len(), 0);
    assert!(configuration.relays().is_empty());
    let none = Configuration::from_addresses(&Vec::new()).unwrap();
    assert!(none.is_empty());
}

#[test]
fn configuration_without_targets_is_refused_before_any_connection() {
    assert_eq!(targets_to_open(&Configuration::default()).unwrap_err(), StartupError::NoTargets);
}

#[test]
fn targets_to_open_are_the_configured_ones() {
    let configuration =
        Configuration::from_addresses(&texts(&["wss://a.example.com", "ws://b.example.com/x"]))
            .unwrap();
    let targets = targets_to_open(&configuration).unwrap();
    let addresses: Vec<&str> = targets.iter().map(|t| t.address()).collect();
    assert_eq!(addresses, vec!["wss://a.example.com/", "ws://b.example.com/x"]);
}

#[test]
fn request_for_text_notes_is_the_expected_frame() {
    let subscription = Subscription::text_notes();
    assert_eq!(subscription.id(), "sub1");
    assert_eq!(subscription.filter(), "{\"kinds\":[1], \"limit\":0}");
    assert_eq!(subscription.request(), "[\"REQ\", \"sub1\", {\"kinds\":[1], \"limit\":0}]");
}

#[test]
fn request_holds_the_identifier_and_the_filter_as_given() {
    let subscription = Subscription::new("feed-7", "{\"authors\":[\"ab\"]}");
    assert_eq!(subscription.request(), "[\"REQ\", \"feed-7\", {\"authors\":[\"ab\"]}]");
    let empty = Subscription::new("", "");
    assert_eq!(empty.request(), "[\"REQ\", \"\", ]");
}

#[test]
fn command_line_arguments_hold_the_configuration_path() {
    let args = CLIArgs { config_file: PathBuf::from("/etc/graffiti/config.toml") };
    assert_eq!(args.config_file, PathBuf::from("/etc/graffiti/config.toml"));
}
