use orderflow_book::bybit::auth::BybitAuth;

#[test]
fn test_signature_generation() {
    let auth = BybitAuth::new("test_key".to_string(), "test_secret".to_string());
    let timestamp = 1234567890000u64;
    let params = "symbol=BTCUSDT&side=Buy";
    let signature = auth.generate_signature(timestamp, params);
    assert!(!signature.is_empty());
    assert_eq!(signature.len(), 64);
}

#[test]
fn test_ws_auth_generation() {
    let auth = BybitAuth::new("test_key".to_string(), "test_secret".to_string());
    let (api_key, expires, signature) = auth.generate_ws_auth();
    assert_eq!(api_key, "test_key");
    assert!(!expires.is_empty());
    assert_eq!(signature.len(), 64);
}

#[test]
fn signature_is_hmac_sha256_hex() {
    let auth = BybitAuth::new("test_key".to_string(), "test_secret".to_string());
    let signature = auth.generate_signature(1234567890000, "symbol=BTCUSDT&side=Buy");
    assert_eq!(signature, "ab7a07139fb96c0ae1620035d56d19a7832cae05bf25026a816b9c1ea0ef47cb");
}

#[test]
fn ws_auth_expires_ten_seconds_later() {
    let auth = BybitAuth::new("test_key".to_string(), "test_secret".to_string());
    let (api_key, expires, signature) = auth.generate_ws_auth_at(1_000_000);
    assert_eq!(api_key, "test_key");
    assert_eq!(expires, "1010000");
    assert_eq!(signature, "ad0b328812be56474e791f7b2cb53e338fdca5094558d8824a2c0e49f6684b03");
    assert_eq!(auth.get_api_key(), "test_key");
    assert!(BybitAuth::get_timestamp() > 1_600_000_000_000);
}
