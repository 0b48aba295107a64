use base64::Engine;
use miassistant::json::Json;
use miassistant::mi::DeviceInfo;
use miassistant::validate::{
    aes128_cbc_decrypt_b64, aes128_cbc_encrypt_b64, allowed_listing, build_request_json,
    encode_request_b64, extract_json_braces, interpret_answer, parse_hex_16, print_allowed,
    print_allowed_with_options, user_agent, validate_form, validate_response, CipherKeys,
    DecryptError, Printed, ValidateError, ValidateResult, DEFAULT_IV, DEFAULT_KEY,
    VALIDATE_TIMEOUT_SECS,
};

#[test]
fn test_aes_b64_roundtrip() {
    let msg = b"hello world aes-128-cbc";
    let e = aes128_cbc_encrypt_b64(msg, &CipherKeys::vendor());
    let d = aes128_cbc_decrypt_b64(&e, &CipherKeys::vendor()).unwrap();
    assert_eq!(d, msg);
}

#[test]
fn test_extract_json() {
    let s = "garbage { \"a\": 1 } trailing";
    let j = extract_json_braces(s).unwrap();
    assert_eq!(j, "{ \"a\": 1 }");
}

fn garnet() -> DeviceInfo {
    DeviceInfo {
        device: "garnet_in_global".to_string(),
        sn: "SN1".to_string(),
        version: "OS2.0.202.0.VNRINXM".to_string(),
        codebase: "14".to_string(),
        branch: "F".to_string(),
        language: "en".to_string(),
        region: "IN".to_string(),
        romzone: "F".to_string(),
    }
}

const GARNET_JSON: &str = "{\"d\":\"garnet_in_global\",\"v\":\"OS2.0.202.0.VNRINXM\",\"c\":\"14\",\"b\":\"F\",\"sn\":\"SN1\",\"l\":\"en-US\",\"f\":\"1\",\"options\":{\"zone\":F},\"pkg\":\"\"}";

#[test]
fn request_json_has_fixed_key_order_and_raw_zone() {
    let json = build_request_json(&garnet(), None);
    assert_eq!(json, GARNET_JSON);
    assert!(json.contains("\"options\":{\"zone\":F}"));
    assert!(json.contains("\"pkg\":\"\""));
}

#[test]
fn request_json_with_md5_and_escapes() {
    let mut info = garnet();
    info.device = "a\"b".to_string();
    info.sn = "\"\"".to_string();
    info.version = "back\\slash".to_string();
    info.romzone = " \t1 \n".to_string();
    info.branch = String::new();
    let json = build_request_json(&info, Some("5eb63bbbe01eeed093cb22bb8f5acdc3".to_string()));
    assert_eq!(
        json,
        "{\"d\":\"a\\\"b\",\"v\":\"back\\slash\",\"c\":\"14\",\"b\":\"\",\"sn\":\"\\\"\\\"\",\"l\":\"en-US\",\"f\":\"1\",\"options\":{\"zone\": \t1 \n},\"pkg\":\"5eb63bbbe01eeed093cb22bb8f5acdc3\"}"
    );
}

#[test]
fn zone_goes_in_character_for_character() {
    for zone in ["F", "2", " 2 ", "", "\"q\"", "a\\b", "\u{a0}1\n"] {
        let mut info = garnet();
        info.romzone = zone.to_string();
        let json = build_request_json(&info, None);
        assert!(json.contains(&format!("\"options\":{{\"zone\":{}}},\"pkg\"", zone)), "{:?}", zone);
        assert_eq!(json.chars().count(), GARNET_JSON.chars().count() - 1 + zone.chars().count());
    }
}

#[test]
fn ciphertext_fills_whole_blocks() {
    let keys = CipherKeys::vendor();
    for len in [0usize, 1, 15, 16, 17, 31, 32, 33, 160] {
        let body = "x".repeat(len);
        let q = encode_request_b64(&body, &keys);
        let cipher = base64::engine::general_purpose::STANDARD.decode(&q).unwrap();
        assert_eq!(cipher.len(), 16 * (len / 16 + 1));
        assert_eq!(q, encode_request_b64(&body, &keys));
    }
}

#[test]
fn request_survives_the_cipher() {
    let keys = CipherKeys::vendor();
    let json = build_request_json(&garnet(), None);
    let q = encode_request_b64(&json, &keys);
    assert_ne!(q, json);
    let back = aes128_cbc_decrypt_b64(&q, &keys).unwrap();
    assert_eq!(back, json.as_bytes());
}

#[test]
fn cipher_matches_known_values() {
    let keys = CipherKeys::vendor();
    assert_eq!(
        aes128_cbc_encrypt_b64(b"hello world aes-128-cbc", &keys),
        "i4NYXxERqROVwIm5l+v+pJMhPMseh3JEmXU/qS2pXnM="
    );
    assert_eq!(aes128_cbc_encrypt_b64(b"", &keys), "ziIMzvw5j60KyMgbKA3vbQ==");
    assert_eq!(
        encode_request_b64(GARNET_JSON, &keys),
        "BTVWb2qATYKYsS7kaGxLpttRz924PSEAIW0A4guVfY0gVEIdrPqizyxB3dJ5hPj9+9+8ETcg9oNFd19JEIkip2WUDjS6JHHJwlokq1zVgQDZFlJyeCOoIVb+8m/yUJ4cxSNhTmBtIsiOIDgtj+J0hBCicBpKI/r9MDOudG/HrL8IJOrOicaIc1QsBzKH8UnE"
    );
    assert_eq!(
        aes128_cbc_decrypt_b64("ziIMzvw5j60KyMgbKA3vbQ==", &keys),
        Ok(Vec::new())
    );
}

#[test]
fn cipher_round_trip_for_many_lengths() {
    let keys = CipherKeys::vendor();
    for len in 0..70usize {
        let msg: Vec<u8> = (0..len).map(|i| (i * 7 + 3) as u8).collect();
        let text = aes128_cbc_encrypt_b64(&msg, &keys);
        assert_eq!(text.len(), ((len / 16 + 1) * 16 + 2) / 3 * 4);
        assert_eq!(aes128_cbc_decrypt_b64(&text, &keys), Ok(msg));
    }
}

#[test]
fn decrypt_errors() {
    let keys = CipherKeys::vendor();
    assert_eq!(aes128_cbc_decrypt_b64("not base64!", &keys), Err(DecryptError::Base64));
    assert_eq!(
        aes128_cbc_decrypt_b64("ziIMzvw5j60KyMgbKA3vbQ==\n", &keys),
        Err(DecryptError::Base64)
    );
    assert_eq!(
        aes128_cbc_decrypt_b64("AAAA", &keys),
        Err(DecryptError::Cipher { cipher_len: 3 })
    );
    assert_eq!(
        aes128_cbc_decrypt_b64("", &keys),
        Err(DecryptError::Cipher { cipher_len: 0 })
    );
    let other = CipherKeys { key: [1; 16], iv: DEFAULT_IV };
    let text = aes128_cbc_encrypt_b64(b"0123456789abcdef0123456789abcdef", &keys);
    assert_ne!(
        aes128_cbc_decrypt_b64(&text, &other),
        Ok(b"0123456789abcdef0123456789abcdef".to_vec())
    );
}

#[test]
fn vendor_keys_are_the_ascii_constants() {
    assert_eq!(&DEFAULT_KEY, b"miuiotavalided11");
    assert_eq!(&DEFAULT_IV, b"0102030405060708");
    assert_eq!(CipherKeys::vendor(), CipherKeys { key: DEFAULT_KEY, iv: DEFAULT_IV });
}

#[test]
fn hex_keys_parse() {
    assert_eq!(
        parse_hex_16("000102030405060708090a0B0c0D0e0F"),
        Some([0, 1, 2, 3, 4, 5, 6, 7, 8, 9, 10, 11, 12, 13, 14, 15])
    );
    assert_eq!(
        parse_hex_16("  ffffffffffffffffffffffffffffffff\n"),
        Some([0xff; 16])
    );
    assert_eq!(parse_hex_16(""), None);
    assert_eq!(parse_hex_16("000102030405060708090a0b0c0d0e0"), None);
    assert_eq!(parse_hex_16("000102030405060708090a0b0c0d0e0f0"), None);
    assert_eq!(parse_hex_16("000102030405060708090a0b0c0d0e0g"), None);
    assert_eq!(parse_hex_16("0001 02030405060708090a0b0c0d0e0"), None);
}

#[test]
fn key_overrides_fall_back_to_the_vendor_values() {
    let k = CipherKeys::with_overrides(None, None);
    assert_eq!(k, CipherKeys::vendor());
    let k = CipherKeys::with_overrides(Some("00112233445566778899aabbccddeeff"), Some("bad"));
    assert_eq!(
        k.key,
        [0x00, 0x11, 0x22, 0x33, 0x44, 0x55, 0x66, 0x77, 0x88, 0x99, 0xaa, 0xbb, 0xcc, 0xdd, 0xee, 0xff]
    );
    assert_eq!(k.iv, DEFAULT_IV);
    let k = CipherKeys::with_overrides(Some("zz"), Some("0f0e0d0c0b0a09080706050403020100"));
    assert_eq!(k.key, DEFAULT_KEY);
    assert_eq!(k.iv, [15, 14, 13, 12, 11, 10, 9, 8, 7, 6, 5, 4, 3, 2, 1, 0]);
}

#[test]
fn extraction_edge_cases() {
    assert_eq!(extract_json_braces(""), None);
    assert_eq!(extract_json_braces("no braces"), None);
    assert_eq!(extract_json_braces("{ only open"), None);
    assert_eq!(extract_json_braces("only close }"), None);
    assert_eq!(extract_json_braces("} before {"), None);
    assert_eq!(extract_json_braces("{}"), Some("{}".to_string()));
    assert_eq!(extract_json_braces("x{a}{b}y}z"), Some("{a}{b}y}".to_string()));
    assert_eq!(
        extract_json_braces("\u{fffd}\u{e9}{\"k\":\"\u{4e2d}\"}\u{fffd}"),
        Some("{\"k\":\"\u{4e2d}\"}".to_string())
    );
}

#[test]
fn extraction_is_idempotent() {
    for s in ["garbage { \"a\": 1 } trailing", "{}", "a{b{c}d}e}", "}}{{}}{{", "{\"x\":{}}  "] {
        let once = extract_json_braces(s).unwrap();
        assert_eq!(extract_json_braces(&once), Some(once.clone()));
    }
}

#[test]
fn form_fields() {
    let keys = CipherKeys::vendor();
    let form = validate_form(GARNET_JSON, &keys);
    assert_eq!(form.q, encode_request_b64(GARNET_JSON, &keys));
    assert_eq!(form.t, "");
    assert_eq!(form.s, "1");
    assert_eq!(user_agent(), "MiTunes_UserAgent_v3.0");
    assert_eq!(VALIDATE_TIMEOUT_SECS, 30);
}

fn sealed(plain: &str) -> String {
    aes128_cbc_encrypt_b64(plain.as_bytes(), &CipherKeys::vendor())
}

fn respond(plain: &str) -> Result<ValidateResult, ValidateError> {
    validate_response(200, &sealed(plain), &CipherKeys::vendor())
}

#[test]
fn response_with_token() {
    let plain = "{\"PkgRom\":{\"Validate\":\"0123456789abcdef0123456789abcdef\",\"Erase\":1},\"Code\":{\"code\":2000,\"message\":\"ok\"}}";
    let r = respond(plain).unwrap();
    assert_eq!(r.validate_token.as_deref(), Some("0123456789abcdef0123456789abcdef"));
    assert_eq!(r.pkgrom_validate, None);
    assert_eq!(r.pkgrom_erase, Some(1));
    assert_eq!(r.code_message.as_deref(), Some("ok"));
    assert_eq!(r.raw_plaintext_head.as_deref(), Some(plain));
    assert_eq!(r.full_json.as_deref(), Some(plain));
}

#[test]
fn response_with_token_and_no_message_is_a_result() {
    let r = respond("{\"PkgRom\":{\"Validate\":\"tok\"}}").unwrap();
    assert_eq!(r.validate_token.as_deref(), Some("tok"));
    assert_eq!(r.code_message, None);
    assert_eq!(r.pkgrom_erase, None);
}

#[test]
fn response_with_list_and_token_fallback() {
    let plain = "junk{\"PkgRom\":{\"Validate\":[\"rom a\",\"rom b\"],\"Token\":\"fallback\",\"Erase\":0},\"Code\":{\"message\":\"\"}}\u{7}\u{7}";
    let r = respond(plain).unwrap();
    assert_eq!(
        r.pkgrom_validate,
        Some(vec!["rom a".to_string(), "rom b".to_string()])
    );
    assert_eq!(r.validate_token.as_deref(), Some("fallback"));
    assert_eq!(r.pkgrom_erase, Some(0));
    assert_eq!(r.code_message, None);
    assert_eq!(r.raw_plaintext_head.as_deref(), Some(plain));
    assert_eq!(
        r.full_json.as_deref(),
        Some(&plain[4..plain.len() - 2])
    );
}

#[test]
fn response_with_message_only() {
    let r = respond("{\"Code\":{\"message\":\"Device not allowed\"},\"PkgRom\":null}").unwrap();
    assert_eq!(r.code_message.as_deref(), Some("Device not allowed"));
    assert_eq!(r.validate_token, None);
    assert_eq!(r.pkgrom_validate, None);
}

#[test]
fn response_head_is_cut_at_200_characters() {
    let pad = "\u{e9}".repeat(300);
    let plain = format!("{}{{\"Code\":{{\"message\":\"m\"}}}}", pad);
    let r = respond(&plain).unwrap();
    assert_eq!(r.raw_plaintext_head, Some("\u{e9}".repeat(200)));
    assert_eq!(r.full_json.as_deref(), Some("{\"Code\":{\"message\":\"m\"}}"));
}

#[test]
fn response_error_http() {
    let keys = CipherKeys::vendor();
    assert_eq!(
        validate_response(404, "Not\nFound", &keys),
        Err(ValidateError::Http {
            status: 404,
            head_len: 9,
            head_hex: "4e6f740a466f756e64".to_string()
        })
    );
    let long = "\u{e9}".repeat(150);
    match validate_response(500, &long, &keys) {
        Err(ValidateError::Http { status, head_len, head_hex }) => {
            assert_eq!(status, 500);
            assert_eq!(head_len, 200);
            assert_eq!(head_hex, "c3a9".repeat(100));
        }
        other => panic!("unexpected {:?}", other),
    }
    assert!(matches!(
        validate_response(199, &sealed("{\"Code\":{\"message\":\"m\"}}"), &keys),
        Err(ValidateError::Http { status: 199, .. })
    ));
    assert!(matches!(
        validate_response(300, "", &keys),
        Err(ValidateError::Http { status: 300, head_len: 0, .. })
    ));
    assert!(validate_response(299, &sealed("{\"Code\":{\"message\":\"m\"}}"), &keys).is_ok());
}

#[test]
fn response_error_empty_body() {
    let keys = CipherKeys::vendor();
    assert_eq!(validate_response(200, "", &keys), Err(ValidateError::EmptyBody));
    assert_eq!(validate_response(200, " \r\n\t", &keys), Err(ValidateError::EmptyBody));
}

#[test]
fn response_error_base64_and_decrypt() {
    let keys = CipherKeys::vendor();
    assert_eq!(validate_response(200, "<html>", &keys), Err(ValidateError::Base64));
    assert_eq!(
        validate_response(200, "AAAAAAAA", &keys),
        Err(ValidateError::Decrypt { cipher_len: 6 })
    );
}

#[test]
fn response_error_no_json() {
    assert_eq!(respond("plain words"), Err(ValidateError::NoJson { plain_len: 11 }));
    assert_eq!(respond("} {"), Err(ValidateError::NoJson { plain_len: 3 }));
}

#[test]
fn response_error_json() {
    assert_eq!(respond("{not json}"), Err(ValidateError::Json));
    assert_eq!(respond("{\"PkgRom\":{\"Erase\":\"1\"},\"Code\":{\"message\":\"m\"}}"), Err(ValidateError::Json));
    assert_eq!(respond("{\"PkgRom\":{\"Erase\":1.5},\"Code\":{\"message\":\"m\"}}"), Err(ValidateError::Json));
    assert_eq!(respond("{\"PkgRom\":{\"Erase\":2147483648},\"Code\":{\"message\":\"m\"}}"), Err(ValidateError::Json));
    assert_eq!(respond("{\"PkgRom\":{\"Validate\":5},\"Code\":{\"message\":\"m\"}}"), Err(ValidateError::Json));
    assert_eq!(respond("{\"PkgRom\":{\"Validate\":[\"a\",1]},\"Code\":{\"message\":\"m\"}}"), Err(ValidateError::Json));
    assert_eq!(respond("{\"PkgRom\":{\"Token\":[]},\"Code\":{\"message\":\"m\"}}"), Err(ValidateError::Json));
    assert_eq!(respond("{\"PkgRom\":7,\"Code\":{\"message\":\"m\"}}"), Err(ValidateError::Json));
    assert_eq!(respond("{\"Code\":{\"message\":null}}"), Err(ValidateError::Json));
    assert_eq!(respond("{\"Code\":\"m\"}"), Err(ValidateError::Json));
    assert_eq!(
        respond("{\"PkgRom\":{\"Erase\":-2147483648},\"Code\":{\"message\":\"m\"}}").unwrap().pkgrom_erase,
        Some(i32::MIN)
    );
}

#[test]
fn response_error_missing_token() {
    assert_eq!(
        respond("{\"Other\":1}"),
        Err(ValidateError::MissingToken { plain_len: 11, head: "{\"Other\":1}".to_string() })
    );
    assert!(matches!(
        respond("{\"PkgRom\":{\"Token\":\"t\",\"Erase\":1},\"Code\":{}}"),
        Err(ValidateError::MissingToken { .. })
    ));
    assert!(matches!(
        respond("{\"PkgRom\":{\"Validate\":null},\"Code\":{\"message\":\"\"}}"),
        Err(ValidateError::MissingToken { .. })
    ));
}

#[test]
fn interpret_takes_a_parsed_answer() {
    let root = Json::Object(vec![(
        "PkgRom".to_string(),
        Json::Object(vec![
            ("Validate".to_string(), Json::Array(vec![])),
            ("Erase".to_string(), Json::Number(Some(1))),
        ]),
    )]);
    let r = interpret_answer(&root, "preview", "{}".to_string(), 7).unwrap();
    assert_eq!(r.pkgrom_validate, Some(vec![]));
    assert_eq!(r.pkgrom_erase, Some(1));
    assert_eq!(r.raw_plaintext_head.as_deref(), Some("preview"));
    assert_eq!(r.full_json.as_deref(), Some("{}"));
    assert_eq!(
        interpret_answer(&Json::Array(vec![]), "p", "{}".to_string(), 1),
        Err(ValidateError::Json)
    );
    assert_eq!(
        interpret_answer(&Json::Object(vec![]), "p", "{}".to_string(), 1),
        Err(ValidateError::MissingToken { plain_len: 1, head: "p".to_string() })
    );
}

#[test]
fn default_result_is_empty() {
    let r = ValidateResult::default();
    assert_eq!(
        r,
        ValidateResult {
            pkgrom_validate: None,
            pkgrom_erase: None,
            code_message: None,
            validate_token: None,
            raw_plaintext_head: None,
            full_json: None,
        }
    );
}

#[test]
fn print_allowed_list() {
    let mut r = ValidateResult::default();
    r.pkgrom_validate = Some(vec!["V14.0.1".to_string(), "V14.0.2".to_string()]);
    r.code_message = Some("msg".to_string());
    assert_eq!(
        print_allowed(&r),
        Printed::Stdout("Allowed ROMs:\n- V14.0.1\n- V14.0.2\n".to_string())
    );
    r.pkgrom_validate = Some(vec![]);
    assert_eq!(
        print_allowed(&r),
        Printed::Stdout("No allowed ROMs reported by server.\n".to_string())
    );
}

#[test]
fn print_allowed_dump() {
    let mut r = ValidateResult::default();
    r.pkgrom_validate = Some(vec!["V14".to_string()]);
    r.full_json = Some("{\"a\":1}".to_string());
    assert_eq!(
        print_allowed_with_options(&r, true),
        Printed::Stdout("{\"a\":1}\n".to_string())
    );
    assert_eq!(
        print_allowed_with_options(&r, false),
        Printed::Stdout("Allowed ROMs:\n- V14\n".to_string())
    );
    r.full_json = None;
    assert_eq!(
        print_allowed_with_options(&r, true),
        Printed::Stdout("Allowed ROMs:\n- V14\n".to_string())
    );
}

#[test]
fn print_allowed_listing_from_json() {
    let mut r = ValidateResult::default();
    r.code_message = Some("note".to_string());
    r.full_json = Some(
        "{\"LatestRom\":{\"name\":\"V2\",\"md5\":\"bb\"},\"Icon\":{\"name\":\"i\",\"md5\":\"c\"},\"CurrentRom\":{\"name\":\"V1\",\"md5\":\"aa\"},\"Code\":{\"message\":\"note\"},\"Half\":{\"name\":\"x\"},\"Num\":{\"name\":1,\"md5\":\"z\"}}"
            .to_string(),
    );
    assert_eq!(
        print_allowed(&r),
        Printed::Stdout("CurrentRom: V1\nmd5: aa\n\nLatestRom: V2\nmd5: bb\n\n".to_string())
    );
}

#[test]
fn print_allowed_invalid_data() {
    let mut r = ValidateResult::default();
    r.code_message = Some("note".to_string());
    r.full_json = Some("{\"Signup\":null,\"A\":{\"name\":\"n\",\"md5\":\"m\"}}".to_string());
    assert_eq!(print_allowed(&r), Printed::Stderr("Error: Invalid data\n".to_string()));
    r.full_json = Some("{\"VersionBoot\":{}}".to_string());
    assert_eq!(print_allowed(&r), Printed::Stderr("Error: Invalid data\n".to_string()));
}

#[test]
fn print_allowed_falls_back_to_the_message() {
    let mut r = ValidateResult::default();
    assert_eq!(
        print_allowed(&r),
        Printed::Stdout("Server did not include allowed ROM list.\n".to_string())
    );
    r.full_json = Some("{\"Code\":{\"message\":\"note\"}}".to_string());
    assert_eq!(
        print_allowed(&r),
        Printed::Stdout("Server did not include allowed ROM list.\n".to_string())
    );
    r.code_message = Some("note".to_string());
    assert_eq!(print_allowed(&r), Printed::Stdout("note\n".to_string()));
    r.full_json = Some("[1,2]".to_string());
    assert_eq!(print_allowed(&r), Printed::Stdout("note\n".to_string()));
    r.full_json = Some("not json".to_string());
    assert_eq!(print_allowed(&r), Printed::Stdout("note\n".to_string()));
}

#[test]
fn listing_takes_a_parsed_answer() {
    let entry = |name: &str, md5: &str| {
        Json::Object(vec![
            ("name".to_string(), Json::Str(name.to_string())),
            ("md5".to_string(), Json::Str(md5.to_string())),
        ])
    };
    let root = Json::Object(vec![
        ("B".to_string(), entry("second", "2")),
        ("A".to_string(), entry("first", "1")),
        ("Icon".to_string(), entry("icon", "3")),
        ("N".to_string(), Json::Null),
    ]);
    assert_eq!(
        allowed_listing(&root),
        Some(Printed::Stdout("B: second\nmd5: 2\n\nA: first\nmd5: 1\n\n".to_string()))
    );
    assert_eq!(allowed_listing(&Json::Object(vec![])), None);
    assert_eq!(allowed_listing(&Json::Array(vec![entry("a", "b")])), None);
    assert_eq!(
        allowed_listing(&Json::Object(vec![
            ("A".to_string(), entry("first", "1")),
            ("VersionBoot".to_string(), Json::Bool(true)),
        ])),
        Some(Printed::Stderr("Error: Invalid data\n".to_string()))
    );
}
