use std::time::{Duration, SystemTime, UNIX_EPOCH};

use azbridge::relay::aad::{auth_header_name, TokenKind};
use azbridge::relay::error::{upgrade_refusal, RelayError};
use azbridge::relay::listener::{
    reconnect_delay_secs, Backoff, ConnectionStatus, RECONNECT_DELAYS,
};
use azbridge::relay::protocol::{actions, headers, query_params, HC_PATH_PREFIX};
use azbridge::relay::stream::{ReadState, ReadStep, WriteMode};
use azbridge::relay::token_provider::{
    url_encode, SharedAccessSignatureToken, SharedAccessSignatureTokenProvider,
};

use base64::Engine;
use hmac::{Hmac, Mac};
use sha2::Sha256;

#[test]
fn token_kind_variants() {
    assert_ne!(TokenKind::Sas, TokenKind::Aad);
    let cloned = TokenKind::Aad;
    assert_eq!(cloned, TokenKind::Aad);
}

#[test]
fn token_kind_selects_header() {
    assert_eq!(auth_header_name(TokenKind::Sas), "ServiceBusAuthorization");
    assert_eq!(auth_header_name(TokenKind::Aad), "Authorization");
}

#[test]
fn reconnect_delays_sequence() {
    assert_eq!(RECONNECT_DELAYS.len(), 6);
    assert_eq!(Duration::from_secs(RECONNECT_DELAYS[0]), Duration::from_secs(0));
    assert_eq!(Duration::from_secs(RECONNECT_DELAYS[5]), Duration::from_secs(30));
}

#[test]
fn reconnect_delay_caps_at_last_entry() {
    let got: Vec<u64> = (0..9).map(reconnect_delay_secs).collect();
    assert_eq!(got, vec![0, 1, 2, 5, 10, 30, 30, 30, 30]);
}

#[test]
fn backoff_restarts_after_success() {
    let mut b = Backoff::new();
    assert_eq!(b.on_disconnected(), (ConnectionStatus::Offline, 0));
    assert_eq!(b.on_disconnected(), (ConnectionStatus::Offline, 1));
    assert_eq!(b.on_disconnected(), (ConnectionStatus::Offline, 2));
    assert_eq!(b.on_connected(), ConnectionStatus::Online);
    assert_eq!(b.reconnect_index, 0);
    assert_eq!(b.on_disconnected(), (ConnectionStatus::Offline, 0));
}

#[test]
fn write_mode_default_is_binary() {
    let mode = WriteMode::Binary;
    assert_eq!(mode, WriteMode::Binary);
    assert_ne!(mode, WriteMode::Text);
}

#[test]
fn write_mode_text_variant() {
    let mode = WriteMode::Text;
    assert_eq!(mode, WriteMode::Text);
}

#[test]
fn write_mode_clone_and_copy() {
    let mode = WriteMode::Binary;
    let cloned = mode.clone();
    let copied = mode;
    assert_eq!(cloned, copied);
}

#[test]
fn write_mode_debug() {
    assert_eq!(format!("{:?}", WriteMode::Binary), "Binary");
    assert_eq!(format!("{:?}", WriteMode::Text), "Text");
}

#[test]
fn read_state_splits_large_message() {
    let mut st = ReadState::new();
    assert!(matches!(st.begin_read(4), ReadStep::AwaitMessage));
    let out = st.on_message(4, b"hello world");
    assert_eq!(out, b"hell".to_vec());
    match st.begin_read(4) {
        ReadStep::Pending(v) => assert_eq!(v, b"o wo".to_vec()),
        _ => panic!("expected pending bytes"),
    }
    match st.begin_read(100) {
        ReadStep::Pending(v) => assert_eq!(v, b"rld".to_vec()),
        _ => panic!("expected pending bytes"),
    }
    assert!(matches!(st.begin_read(4), ReadStep::AwaitMessage));
    st.on_close();
    assert!(matches!(st.begin_read(4), ReadStep::End));
}

#[test]
fn read_state_keeps_pending_after_close() {
    let mut st = ReadState::new();
    let out = st.on_message(2, b"abc");
    assert_eq!(out, b"ab".to_vec());
    st.on_close();
    match st.begin_read(8) {
        ReadStep::Pending(v) => assert_eq!(v, b"c".to_vec()),
        _ => panic!("pending bytes come before the end"),
    }
    assert!(matches!(st.begin_read(8), ReadStep::End));
}

#[test]
fn url_encode_unreserved_chars_unchanged() {
    let input = "abcXYZ019-._~";
    assert_eq!(url_encode(input), input);
}

#[test]
fn url_encode_special_chars() {
    assert_eq!(url_encode("hello world"), "hello%20world");
    assert_eq!(url_encode("a=b&c"), "a%3Db%26c");
    assert_eq!(url_encode("https://example.com"), "https%3A%2F%2Fexample.com");
}

#[test]
fn url_encode_multibyte_is_utf8_encoded() {
    assert_eq!(url_encode("é"), "%C3%A9");
}

#[test]
fn provider_new_valid() {
    let provider = SharedAccessSignatureTokenProvider::new("myKey", "mySecret").unwrap();
    assert_eq!(provider.key_name(), "myKey");
    assert_eq!(provider.key(), "mySecret");
}

#[test]
fn provider_new_rejects_bad_credentials() {
    for (name, key, arg) in [("", "k", "key_name"), ("n", "", "key")] {
        match SharedAccessSignatureTokenProvider::new(name, key) {
            Err(RelayError::InvalidArgument { name, .. }) => assert_eq!(name, arg),
            _ => panic!("expected an invalid argument"),
        }
    }
    let long = "a".repeat(257);
    assert!(SharedAccessSignatureTokenProvider::new(&long, "k").is_err());
    assert!(SharedAccessSignatureTokenProvider::new("n", &long).is_err());
    assert!(SharedAccessSignatureTokenProvider::new(&"a".repeat(256), "k").is_ok());
}

#[test]
fn sas_token_new_parses_valid_token() {
    let future_expiry = SystemTime::now().duration_since(UNIX_EPOCH).unwrap().as_secs() + 7200;
    let raw = format!("SharedAccessSignature sr=foo&sig=bar&se={}&skn=key", future_expiry);
    let token = SharedAccessSignatureToken::new(&raw).unwrap();
    assert_eq!(token.token(), raw);
    assert_eq!(
        UNIX_EPOCH + Duration::from_secs(token.expires_at()),
        UNIX_EPOCH + Duration::from_secs(future_expiry)
    );
}

#[test]
fn sas_token_new_rejects_bad_tokens() {
    assert!(SharedAccessSignatureToken::new("Bearer abc").is_err());
    assert!(SharedAccessSignatureToken::new("SharedAccessSignature sr=foo&sig=bar").is_err());
}

#[test]
fn sign_produces_expected_signature() {
    let provider = SharedAccessSignatureTokenProvider::new("keyName", "keyValue").unwrap();
    let audience = "http://my.namespace.example.com/";
    let token = provider.sign(audience, 3600, 0, 1_000_000).unwrap();
    assert_eq!(token.expires_at, 1_003_600);

    let encoded_audience = url_encode(audience);
    let to_sign = format!("{}\n{}", encoded_audience, 1_003_600);
    let mut mac = Hmac::<Sha256>::new_from_slice(b"keyValue").unwrap();
    mac.update(to_sign.as_bytes());
    let sig = base64::engine::general_purpose::STANDARD.encode(mac.finalize().into_bytes());
    let expected = format!(
        "SharedAccessSignature sr={}&sig={}&se={}&skn={}",
        encoded_audience,
        url_encode(&sig),
        1_003_600,
        "keyName"
    );
    assert_eq!(token.token, expected);
}

#[test]
fn sign_rejects_empty_audience_and_zero_validity() {
    let provider = SharedAccessSignatureTokenProvider::new("key", "secret").unwrap();
    assert!(matches!(
        provider.sign("", 60, 0, 0),
        Err(RelayError::InvalidArgument { .. })
    ));
    assert!(matches!(
        provider.sign("http://example.com", 0, 0, 0),
        Err(RelayError::InvalidArgument { .. })
    ));
}

#[test]
fn hc_path_prefix_value() {
    assert_eq!(HC_PATH_PREFIX, "$hc/");
}

#[test]
fn query_param_constants() {
    assert_eq!(query_params::ACTION, "sb-hc-action");
    assert_eq!(query_params::ID, "sb-hc-id");
    assert_eq!(query_params::TOKEN, "sb-hc-token");
    assert_eq!(query_params::STATUS_CODE, "sb-hc-statusCode");
    assert_eq!(query_params::STATUS_DESCRIPTION, "sb-hc-statusDescription");
}

#[test]
fn action_constants() {
    assert_eq!(actions::LISTEN, "listen");
    assert_eq!(actions::CONNECT, "connect");
    assert_eq!(actions::ACCEPT, "accept");
    assert_eq!(actions::REQUEST, "request");
}

#[test]
fn header_constants() {
    assert_eq!(headers::SERVICE_BUS_AUTHORIZATION, "ServiceBusAuthorization");
    assert_eq!(headers::RELAY_USER_AGENT, "Relay-User-Agent");
}

#[test]
fn upgrade_refusal_maps_statuses() {
    match upgrade_refusal(401, "nope") {
        RelayError::AuthorizationFailed(m) => assert_eq!(m, "HTTP 401: nope"),
        _ => panic!("401 is an authorization failure"),
    }
    match upgrade_refusal(403, "") {
        RelayError::AuthorizationFailed(m) => assert_eq!(m, "HTTP 403: "),
        _ => panic!("403 is an authorization failure"),
    }
    match upgrade_refusal(404, "gone") {
        RelayError::EndpointNotFound(m) => assert_eq!(m, "HTTP 404: gone"),
        _ => panic!("404 is an unknown endpoint"),
    }
    match upgrade_refusal(500, "oops") {
        RelayError::Communication { message } => assert_eq!(message, "HTTP 500: oops"),
        _ => panic!("other statuses are communication errors"),
    }
}

#[test]
fn provider_new_rejects_empty_key_name() {
    let err = SharedAccessSignatureTokenProvider::new("", "key").unwrap_err();
    assert!(matches!(err, RelayError::InvalidArgument { .. }));
}

#[test]
fn provider_new_rejects_long_key_name() {
    let long = "a".repeat(257);
    let err = SharedAccessSignatureTokenProvider::new(&long, "key").unwrap_err();
    assert!(matches!(err, RelayError::InvalidArgument { .. }));
}

#[test]
fn provider_new_rejects_empty_key() {
    let err = SharedAccessSignatureTokenProvider::new("name", "").unwrap_err();
    assert!(matches!(err, RelayError::InvalidArgument { .. }));
}

#[test]
fn provider_new_rejects_long_key() {
    let long = "a".repeat(257);
    let err = SharedAccessSignatureTokenProvider::new("name", &long).unwrap_err();
    assert!(matches!(err, RelayError::InvalidArgument { .. }));
}

#[test]
fn sas_token_new_rejects_invalid_prefix() {
    let err = SharedAccessSignatureToken::new("Bearer abc").unwrap_err();
    assert!(matches!(err, RelayError::InvalidArgument { .. }));
}

#[test]
fn sas_token_new_rejects_missing_expiry() {
    let err = SharedAccessSignatureToken::new("SharedAccessSignature sr=foo&sig=bar").unwrap_err();
    assert!(matches!(err, RelayError::InvalidArgument { .. }));
}

#[test]
fn provider_limits_count_characters() {
    let name = "é".repeat(200);
    assert!(SharedAccessSignatureTokenProvider::new(&name, "key").is_ok());
    let long = "é".repeat(257);
    assert!(SharedAccessSignatureTokenProvider::new("name", &long).is_err());
    let max = "é".repeat(256);
    assert!(SharedAccessSignatureTokenProvider::new("name", &max).is_ok());
}
