use c2patool::signing::{
    external_signature, reserve_size, signer_args, signer_mode, SignerConfig, SignerMode,
    SigningError,
};
use c2patool::trust::TrustConfig;

#[test]
fn reserve_size_without_tsa() {
    assert_eq!(reserve_size(None, 1500, &None, 6000), 2524);
    assert_eq!(reserve_size(None, 0, &None, 0), 1024);
}

#[test]
fn reserve_size_with_tsa() {
    let tsa = Some("http://timestamp.digicert.com".to_string());
    assert_eq!(reserve_size(None, 1500, &tsa, 6000), 8524);
    assert_eq!(reserve_size(None, 1500, &tsa, 0), 2524);
    assert_eq!(reserve_size(Some(20000), 1500, &tsa, 6000), 20000);
}

#[test]
fn failing_signer_process_gives_no_signature() {
    let r = external_signature(false, vec![1, 2, 3], "bad key".to_string(), 100);
    assert_eq!(
        r,
        Err(SigningError::ExternalProcessFailed { stderr: "bad key".to_string() })
    );
    let empty = external_signature(true, vec![], "".to_string(), 100);
    assert_eq!(
        empty,
        Err(SigningError::ExternalProcessFailed { stderr: "".to_string() })
    );
}

#[test]
fn oversized_signature_is_refused() {
    let r = external_signature(true, vec![0u8; 11], String::new(), 10);
    assert_eq!(r, Err(SigningError::ReserveSizeExceeded { required: 11, available: 10 }));
    assert_eq!(
        r.unwrap_err().message(),
        "Signature of 11 bytes exceeds the reserved size of 10 bytes"
    );
    assert_eq!(external_signature(true, vec![7u8; 10], String::new(), 10), Ok(vec![7u8; 10]));
}

#[test]
fn signer_selection_and_args() {
    match signer_mode(Some("/bin/signer".to_string())) {
        SignerMode::ExternalProcess { executable } => assert_eq!(executable, "/bin/signer"),
        SignerMode::Local => panic!("expected an external signer"),
    }
    assert!(matches!(signer_mode(None), SignerMode::Local));
    assert_eq!(
        signer_args(2524, "es256", "certs.pem"),
        vec!["--reserve-size", "2524", "--alg", "es256", "--sign-cert", "certs.pem"]
    );
}

#[test]
fn trust_inputs_enable_trust() {
    let c = TrustConfig {
        trust_anchors: Some("-----BEGIN CERTIFICATE-----\n\"x\"".to_string()),
        allowed_list: None,
        trust_config: Some("1.3.6.1".to_string()),
        verify_after_sign: true,
    };
    assert_eq!(
        c.settings(),
        vec![
            "{\"trust\": { \"trust_anchors\": \"-----BEGIN CERTIFICATE-----\\n\\\"x\\\"\" } }"
                .to_string(),
            "{\"trust\": { \"allowed_list\": null } }".to_string(),
            "{\"trust\": { \"trust_config\": \"1.3.6.1\" } }".to_string(),
            "{\"verify\": { \"verify_trust\": true} }".to_string(),
            "{\"verify\": { \"verify_after_sign\": true } }".to_string(),
        ]
    );
}

#[test]
fn no_trust_inputs_disable_trust_after_earlier_enable() {
    let earlier = TrustConfig {
        trust_anchors: Some("anchors".to_string()),
        allowed_list: Some("allowed".to_string()),
        trust_config: None,
        verify_after_sign: true,
    };
    assert!(earlier.settings().contains(&"{\"verify\": { \"verify_trust\": true} }".to_string()));
    let now = TrustConfig {
        trust_anchors: None,
        allowed_list: None,
        trust_config: None,
        verify_after_sign: false,
    };
    assert_eq!(
        now.settings(),
        vec![
            "{\"trust\": { \"trust_anchors\": null } }".to_string(),
            "{\"trust\": { \"allowed_list\": null } }".to_string(),
            "{\"trust\": { \"trust_config\": null } }".to_string(),
            "{\"verify\": { \"verify_trust\": false} }".to_string(),
            "{\"verify\": { \"verify_after_sign\": false } }".to_string(),
        ]
    );
}

#[test]
fn signer_files_resolve_against_definition() {
    let c = SignerConfig {
        alg: "es256".to_string(),
        private_key: Some("es256_private.key".to_string()),
        sign_cert: Some("/certs/es256_certs.pem".to_string()),
        ta_url: None,
    };
    let base = Some("/defs".to_string());
    assert_eq!(
        c.local_files(&base),
        Ok(("/certs/es256_certs.pem".to_string(), "/defs/es256_private.key".to_string()))
    );
    assert_eq!(c.cert_file(&base), Some("/certs/es256_certs.pem".to_string()));
    let no_key = SignerConfig { private_key: None, ..c };
    assert_eq!(no_key.local_files(&base), Err(SigningError::LocalSignerUnavailable));
}

#[test]
fn trust_input_escapes_control_characters() {
    let c = TrustConfig {
        trust_anchors: None,
        allowed_list: Some("a\u{1}b\\\t\u{1f}".to_string()),
        trust_config: None,
        verify_after_sign: true,
    };
    assert_eq!(
        c.settings()[1],
        "{\"trust\": { \"allowed_list\": \"a\\u0001b\\\\\\t\\u001f\" } }"
    );
}
