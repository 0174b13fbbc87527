use base64::Engine;
use r3_ui::services::totp::{
    base32_decode, base32_encode, generate_otpauth_url, generate_qr_code_base64,
    generate_qr_code_data_uri, generate_secret, generate_totp, generate_totp_at, verify_totp,
    verify_totp_at, TotpError,
};

#[test]
fn test_generate_and_verify_totp() {
    let secret = generate_secret();
    assert!(!secret.is_empty());

    let code = generate_totp(&secret).unwrap();
    assert_eq!(code.len(), 6);
    assert!(code.chars().all(|c| c.is_numeric()));

    assert!(verify_totp(&secret, &code));
}

#[test]
fn test_verify_invalid_code() {
    let secret = generate_secret();
    assert!(!verify_totp(&secret, "000000"));
    assert!(!verify_totp(&secret, "123456"));
}

#[test]
fn test_generate_otpauth_url() {
    let secret = "JBSWY3DPEHPK3PXP";
    let url = generate_otpauth_url(secret, "admin", "r3-UI");
    assert!(url.starts_with("otpauth://totp/"));
    assert!(url.contains("secret=JBSWY3DPEHPK3PXP"));
    assert!(url.contains("issuer=r3-UI"));
}

#[test]
fn test_generate_qr_code() {
    let otpauth_url = "otpauth://totp/r3-UI:admin?secret=JBSWY3DPEHPK3PXP&issuer=r3-UI";
    let base64 = generate_qr_code_base64(otpauth_url).unwrap();
    assert!(!base64.is_empty());

    let data_uri = generate_qr_code_data_uri(otpauth_url).unwrap();
    assert!(data_uri.starts_with("data:image/png;base64,"));
}

#[test]
fn base32_encode_rfc_vectors() {
    assert_eq!(base32_encode(b""), "");
    assert_eq!(base32_encode(b"f"), "MY");
    assert_eq!(base32_encode(b"fo"), "MZXQ");
    assert_eq!(base32_encode(b"foo"), "MZXW6");
    assert_eq!(base32_encode(b"foob"), "MZXW6YQ");
    assert_eq!(base32_encode(b"fooba"), "MZXW6YTB");
    assert_eq!(base32_encode(b"foobar"), "MZXW6YTBOI");
}

#[test]
fn base32_decode_ignores_case_and_padding() {
    assert_eq!(base32_decode("MZXW6YTBOI======").unwrap(), b"foobar".to_vec());
    assert_eq!(base32_decode("mzxw6ytboi").unwrap(), b"foobar".to_vec());
    assert_eq!(base32_decode("").unwrap(), Vec::<u8>::new());
}

#[test]
fn base32_decode_reports_first_bad_character() {
    assert_eq!(base32_decode("MZ1X8"), Err('1'));
    assert_eq!(base32_decode("ab-c"), Err('-'));
}

#[test]
fn base32_roundtrip_of_random_secret_bytes() {
    let data: Vec<u8> = (0u8..=255).collect();
    for n in 0..40 {
        let text = base32_encode(&data[..n]);
        assert_eq!(text.len(), (8 * n + 4) / 5);
        assert_eq!(base32_decode(&text).unwrap(), data[..n].to_vec());
        assert_eq!(base32_decode(&text.to_lowercase()).unwrap(), data[..n].to_vec());
    }
}

#[test]
fn generated_secret_has_thirty_two_characters() {
    let secret = generate_secret();
    assert_eq!(secret.len(), 32);
    assert_eq!(base32_decode(&secret).unwrap().len(), 20);
}

#[test]
fn totp_matches_rfc6238_sha1_vectors() {
    // The RFC 6238 key "12345678901234567890" in base32.
    let secret = "GEZDGNBVGY3TQOJQGEZDGNBVGY3TQOJQ";
    assert_eq!(generate_totp_at(secret, 59).unwrap(), "287082");
    assert_eq!(generate_totp_at(secret, 1111111109).unwrap(), "081804");
    assert_eq!(generate_totp_at(secret, 1234567890).unwrap(), "005924");
}

#[test]
fn verify_allows_one_period_of_drift() {
    let secret = "GEZDGNBVGY3TQOJQGEZDGNBVGY3TQOJQ";
    assert!(verify_totp_at(secret, "287082", 59));
    assert!(verify_totp_at(secret, "287082", 30));
    assert!(verify_totp_at(secret, "287082", 89));
    assert!(verify_totp_at(secret, "287082", 0));
    assert!(!verify_totp_at(secret, "287082", 90));
    assert!(!verify_totp_at(secret, "287083", 59));
}

#[test]
fn verify_rejects_empty_or_bad_input() {
    assert!(!verify_totp_at("", "287082", 59));
    assert!(!verify_totp_at("GEZDGNBVGY3TQOJQGEZDGNBVGY3TQOJQ", "", 59));
    assert!(!verify_totp_at("GEZ!", "287082", 59));
}

#[test]
fn generate_totp_reports_bad_secret() {
    let err = generate_totp("AB1C").unwrap_err();
    assert_eq!(err, TotpError::InvalidSecret('1'));
    assert_eq!(err.message(), "Failed to decode secret: Invalid base32 character: 1");
}

#[test]
fn otpauth_url_is_exact_and_encodes_names() {
    assert_eq!(
        generate_otpauth_url("JBSWY3DPEHPK3PXP", "admin", "r3-UI"),
        "otpauth://totp/r3-UI:admin?secret=JBSWY3DPEHPK3PXP&issuer=r3-UI&algorithm=SHA1&digits=6&period=30"
    );
    assert_eq!(
        generate_otpauth_url("S", "a b@c", "My App"),
        "otpauth://totp/My%20App:a%20b%40c?secret=S&issuer=My%20App&algorithm=SHA1&digits=6&period=30"
    );
}

#[test]
fn qr_code_is_a_png_file() {
    let url = "otpauth://totp/r3-UI:admin?secret=JBSWY3DPEHPK3PXP&issuer=r3-UI";
    let b = generate_qr_code_base64(url).unwrap();
    let bytes = base64::engine::general_purpose::STANDARD.decode(&b).unwrap();
    assert_eq!(&bytes[..8], &[0x89, 0x50, 0x4E, 0x47, 0x0D, 0x0A, 0x1A, 0x0A]);
    assert_eq!(&bytes[12..16], b"IHDR");
}

#[test]
fn qr_data_uri_wraps_the_base64_image() {
    let url = "otpauth://totp/x:y?secret=AAAA";
    let b = generate_qr_code_base64(url).unwrap();
    assert_eq!(generate_qr_code_data_uri(url).unwrap(), format!("data:image/png;base64,{}", b));
}
