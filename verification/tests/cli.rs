use emissary::cli::{next_action, report, Action, Args, CONFIG_FILE};
use emissary::config::prepare;
use emissary::error::EmissaryError;
use emissary::payload::Payload;
use emissary::value::FieldValue;

#[test]
fn the_configuration_file_is_under_the_home_directory() {
    assert_eq!(CONFIG_FILE, ".config/emissary.ini");
}

#[test]
fn a_given_message_wins_over_the_input() {
    let args = Args { msg: Some("from the argument".to_string()), txt: None };
    assert!(!args.needs_input());
    assert_eq!(args.message("from the input"), "from the argument");
}

#[test]
fn without_a_message_the_input_is_taken() {
    let args = Args { msg: None, txt: Some("text".to_string()) };
    assert!(args.needs_input());
    assert_eq!(args.message("from the input"), "from the input");
}

#[test]
fn a_resolved_payload_is_sent_to_its_webhook() {
    let config = "[Default]\nchannel=Slack\n\n[Slack]\nwebhook=https://example.test/hook\n";
    match next_action(prepare("hello", Some(config))) {
        Action::Send { url, payload } => {
            assert_eq!(url, "https://example.test/hook");
            assert_eq!(payload.len(), 2);
            assert_eq!(payload.get("message"), Some(&FieldValue::Str("hello".to_string())));
            assert_eq!(payload.get("webhook"), Some(&FieldValue::Str("https://example.test/hook".to_string())));
        }
        Action::Report(line) => panic!("unexpected report: {}", line),
    }
}

#[test]
fn a_webhook_replaced_by_data_is_sent_to_as_text() {
    let config = "[Default]\nchannel=Slack\n\n[Slack]\nwebhook=https://example.test/hook\ndata={\"webhook\": 5}\n";
    match next_action(prepare("hello", Some(config))) {
        Action::Send { url, .. } => assert_eq!(url, "5"),
        Action::Report(line) => panic!("unexpected report: {}", line),
    }
}

#[test]
fn a_payload_without_webhook_is_reported() {
    let mut payload = Payload::new();
    payload.insert("message".to_string(), FieldValue::Str("hello".to_string()));
    match next_action(Ok(payload)) {
        Action::Report(line) => assert_eq!(line, "[-] Webhook was not set..."),
        Action::Send { url, .. } => panic!("unexpected send to {}", url),
    }
}

#[test]
fn a_failed_resolving_is_reported() {
    match next_action(prepare("hello", None)) {
        Action::Report(line) => assert_eq!(line, "[-] Error sending message: configuration file not found"),
        Action::Send { url, .. } => panic!("unexpected send to {}", url),
    }
    match next_action(Err(EmissaryError::MissingKey("webhook".to_string()))) {
        Action::Report(line) => assert_eq!(line, "[-] Error sending message: key not found: webhook"),
        Action::Send { url, .. } => panic!("unexpected send to {}", url),
    }
}

#[test]
fn report_of_a_delivery_and_of_a_failure() {
    assert_eq!(report(Ok(())), "[+] Message Sent!");
    assert_eq!(
        report(Err(EmissaryError::TransportError("connection refused".to_string()))),
        "[-] Error sending message: connection refused"
    );
}

#[test]
fn message_of_each_error() {
    assert_eq!(EmissaryError::ConfigNotFound.message(), "configuration file not found");
    assert_eq!(EmissaryError::ConfigParseError.message(), "configuration file is malformed");
    assert_eq!(EmissaryError::MissingSection("Default".to_string()).message(), "section not found: Default");
    assert_eq!(EmissaryError::MissingKey("channel".to_string()).message(), "key not found: channel");
    assert_eq!(EmissaryError::DataParseError.message(), "could not parse data");
    assert_eq!(EmissaryError::TransportError("dns error".to_string()).message(), "dns error");
}
