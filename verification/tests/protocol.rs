use urc::protocol::{
    decode_payload, default_web_tls_port, encode_payload, tunnel_target_port, AgentConfig, BackendPreference,
    EncryptionMode, PayloadError, TunnelTarget, DEFAULT_FILES_PORT,
};

#[test]
fn payload_round_trips_through_base64() {
    for bytes in [vec![], vec![0u8], b"RFB 003.008\n".to_vec(), (0u8..=255).collect::<Vec<u8>>()] {
        let text = encode_payload(&bytes);
        assert_eq!(decode_payload(&text), Ok(bytes));
    }
}

#[test]
fn payload_uses_standard_padded_alphabet() {
    assert_eq!(encode_payload(&b"hi".to_vec()), "aGk=");
    assert_eq!(encode_payload(&vec![0xfb, 0xff]), "+/8=");
    assert_eq!(decode_payload("aGk="), Ok(b"hi".to_vec()));
}

#[test]
fn payload_rejects_invalid_base64() {
    assert_eq!(decode_payload("not base64!"), Err(PayloadError::InvalidBase64));
    assert_eq!(decode_payload("aGk"), Err(PayloadError::InvalidBase64));
}

#[test]
fn config_defaults() {
    let c = AgentConfig::default();
    assert_eq!(c.coordinator_url, "wss://127.0.0.1:21150");
    assert_eq!(c.listen_tls_port, 15900);
    assert_eq!(c.listen_web_tls_port, 15901);
    assert_eq!(c.vnc_password_file.as_deref(), Some("/etc/urc/vncpasswd"));
    assert_eq!(c.encryption, EncryptionMode::Tls);
    assert_eq!(c.files_root.as_deref(), Some("/home"));
    assert_eq!(c.backend, BackendPreference::Auto);
    assert!(!c.insecure && c.host_id.is_none() && c.token.is_none());
    assert_eq!(default_web_tls_port(), 15901);
}

#[test]
fn tunnel_targets() {
    assert_eq!(tunnel_target_port(TunnelTarget::Vnc, 5901), 5901);
    assert_eq!(tunnel_target_port(TunnelTarget::Files, 5901), DEFAULT_FILES_PORT);
    assert_eq!(BackendPreference::Wayvnc.debug_name(), "Wayvnc");
}

#[test]
fn payload_decoding_accepts_only_canonical_encodings() {
    assert_eq!(decode_payload("aA=="), Ok(vec![0x68]));
    assert_eq!(decode_payload("aG=="), Err(PayloadError::InvalidBase64));
    assert_eq!(decode_payload("aGl="), Err(PayloadError::InvalidBase64));
    assert_eq!(decode_payload("aGk=aGk="), Err(PayloadError::InvalidBase64));
    assert_eq!(decode_payload(""), Ok(vec![]));
}
