use miassistant::flash::{
    allow_wipe, apply_overrides, check_server_url, choose_md5, erase_notice, prepare_info,
    sideload_token, FlashError, Md5Choice, Overrides,
};
use miassistant::mi::DeviceInfo;
use miassistant::usb::{
    match_setting, pick_match, Endpoint, InterfaceMatch, InterfaceSetting, Transfer, UsbError,
};
use miassistant::util::adb_server::{frame_request, is_running, read_status, ServerStatus};
use miassistant::util::config::{is_md5_text, BadMd5, State};
use miassistant::util::logging::LogVerbosity;
use miassistant::validate::ValidateResult;

fn setting(class: u8, sub: u8, proto: u8, endpoints: Vec<Endpoint>) -> InterfaceSetting {
    InterfaceSetting {
        interface_number: 3,
        class_code: class,
        sub_class_code: sub,
        protocol_code: proto,
        endpoints,
    }
}

fn ep(address: u8, bulk: bool) -> Endpoint {
    Endpoint { address, bulk }
}

#[test]
fn interface_must_be_of_the_dialect_with_both_bulk_endpoints() {
    let eps = vec![ep(0x81, true), ep(0x01, true)];
    assert_eq!(
        match_setting(&setting(0xff, 0x42, 0x01, eps.clone())),
        Some(InterfaceMatch { interface_number: 3, ep_in: 0x81, ep_out: 0x01 })
    );
    assert_eq!(match_setting(&setting(0xfe, 0x42, 0x01, eps.clone())), None);
    assert_eq!(match_setting(&setting(0xff, 0x43, 0x01, eps.clone())), None);
    assert_eq!(match_setting(&setting(0xff, 0x42, 0x03, eps.clone())), None);
    assert_eq!(match_setting(&setting(0xff, 0x42, 0x01, vec![ep(0x81, true)])), None);
    assert_eq!(match_setting(&setting(0xff, 0x42, 0x01, vec![ep(0x01, true)])), None);
    assert_eq!(
        match_setting(&setting(0xff, 0x42, 0x01, vec![ep(0x81, false), ep(0x01, true)])),
        None
    );
    assert_eq!(match_setting(&setting(0xff, 0x42, 0x01, vec![])), None);
}

#[test]
fn the_last_bulk_endpoint_of_each_direction_is_taken() {
    let eps = vec![
        ep(0x81, true),
        ep(0x02, true),
        ep(0x83, false),
        ep(0x84, true),
        ep(0x05, true),
        ep(0x06, false),
    ];
    assert_eq!(
        match_setting(&setting(0xff, 0x42, 0x01, eps)),
        Some(InterfaceMatch { interface_number: 3, ep_in: 0x84, ep_out: 0x05 })
    );
}

#[test]
fn picking_among_matches() {
    assert_eq!(pick_match(0, 0), Err(UsbError::DeviceNotFound));
    assert_eq!(pick_match(0, 5), Err(UsbError::DeviceNotFound));
    assert_eq!(pick_match(2, 2), Err(UsbError::IndexOutOfRange { index: 2, found: 2 }));
    assert_eq!(pick_match(2, 0), Ok(0));
    assert_eq!(pick_match(2, 1), Ok(1));
}

#[test]
fn transfer_advances_and_stalls() {
    let mut t = Transfer::new(10);
    assert!(!t.complete());
    assert_eq!(t.advance(4), Ok(()));
    assert_eq!(t, Transfer { done: 4, total: 10 });
    assert_eq!(t.advance(0), Err(UsbError::TransportStall { done: 4, total: 10 }));
    assert_eq!(t, Transfer { done: 4, total: 10 });
    assert_eq!(t.advance(6), Ok(()));
    assert!(t.complete());
    assert!(Transfer::new(0).complete());
}

#[test]
fn state_keeps_a_lower_case_md5() {
    let mut s = State::default();
    assert_eq!(s.override_md5, None);
    assert_eq!(s.set_override("5EB63BBBE01EEED093CB22BB8F5ACDC3"), Ok(()));
    assert_eq!(s.override_md5.as_deref(), Some("5eb63bbbe01eeed093cb22bb8f5acdc3"));
    assert_eq!(s.set_override("5eb63bbbe01eeed093cb22bb8f5acdc"), Err(BadMd5));
    assert_eq!(s.set_override("5eb63bbbe01eeed093cb22bb8f5acdc3g"), Err(BadMd5));
    assert_eq!(s.set_override("5eb63bbbe01eeed093cb22bb8f5acdcg"), Err(BadMd5));
    assert_eq!(s.set_override(""), Err(BadMd5));
    assert_eq!(s.override_md5.as_deref(), Some("5eb63bbbe01eeed093cb22bb8f5acdc3"));
    s.clear_override();
    assert_eq!(s.override_md5, None);
}

#[test]
fn md5_text_is_32_hex_digits() {
    let chars = |s: &str| s.chars().collect::<Vec<char>>();
    assert!(is_md5_text(&chars("0123456789abcdefABCDEF0123456789")));
    assert!(!is_md5_text(&chars("0123456789abcdefABCDEF012345678")));
    assert!(!is_md5_text(&chars("0123456789abcdefABCDEF012345678 ")));
    assert!(!is_md5_text(&chars("\u{ff10}123456789abcdefABCDEF0123456789")));
}

#[test]
fn verbosity_from_the_number_of_flags() {
    assert_eq!(LogVerbosity::from_count(0), LogVerbosity::Normal);
    assert_eq!(LogVerbosity::from_count(1), LogVerbosity::Verbose);
    assert_eq!(LogVerbosity::from_count(2), LogVerbosity::Debug);
    assert_eq!(LogVerbosity::from_count(255), LogVerbosity::Debug);
}

#[test]
fn server_requests_are_framed_with_a_hex_length() {
    assert_eq!(frame_request("host:kill"), b"0009host:kill".to_vec());
    assert_eq!(frame_request("host:version"), b"000chost:version".to_vec());
    assert_eq!(frame_request(""), b"0000".to_vec());
    let long = "x".repeat(0x1abcd);
    let framed = frame_request(&long);
    assert_eq!(&framed[..5], b"1abcd");
    assert_eq!(framed.len(), 5 + 0x1abcd);
    assert_eq!(&frame_request(&"y".repeat(255))[..4], b"00ff");
    assert_eq!(&frame_request(&"y".repeat(4096))[..4], b"1000");
}

#[test]
fn server_status_words() {
    assert_eq!(read_status(b"OKAY"), ServerStatus::Okay);
    assert_eq!(read_status(b"FAIL"), ServerStatus::Fail);
    assert_eq!(read_status(b"okay"), ServerStatus::Other);
    assert_eq!(read_status(b"OKAX"), ServerStatus::Other);
    assert_eq!(read_status(&[0xff, 0, 0, 0]), ServerStatus::Other);
}

#[test]
fn server_is_running_when_it_speaks() {
    assert!(!is_running(false, None));
    assert!(!is_running(false, Some(ServerStatus::Okay)));
    assert!(is_running(true, None));
    assert!(is_running(true, Some(ServerStatus::Okay)));
    assert!(is_running(true, Some(ServerStatus::Fail)));
    assert!(!is_running(true, Some(ServerStatus::Other)));
}

#[test]
fn server_url_rules() {
    assert_eq!(check_server_url("https://update.miui.com/updates/miotaV3.php", false), Ok(false));
    assert_eq!(check_server_url("https://update.miui.com", true), Ok(false));
    assert_eq!(check_server_url("http://update.miui.com", true), Ok(true));
    assert_eq!(check_server_url("ftp://update.miui.com", true), Ok(false));
    assert_eq!(check_server_url("http://update.miui.com", false), Err(FlashError::InsecureServer));
    assert_eq!(check_server_url("", false), Err(FlashError::InsecureServer));
    assert_eq!(check_server_url("HTTPS://x", false), Err(FlashError::InsecureServer));
}

fn reported() -> DeviceInfo {
    DeviceInfo {
        device: "garnet".to_string(),
        sn: "SN1".to_string(),
        version: "OS2.0.202.0.VNRCNXM".to_string(),
        codebase: "14".to_string(),
        branch: "X".to_string(),
        language: "zh".to_string(),
        region: "CN".to_string(),
        romzone: "1".to_string(),
    }
}

fn no_overrides() -> Overrides {
    Overrides { device: None, version: None, sn: None, codebase: None, branch: None, romzone: None }
}

#[test]
fn overrides_replace_what_they_name() {
    let mut info = reported();
    apply_overrides(&mut info, &no_overrides());
    assert_eq!(info, reported());
    let o = Overrides {
        device: Some("d".to_string()),
        version: None,
        sn: Some("s".to_string()),
        codebase: Some("c".to_string()),
        branch: None,
        romzone: Some("F".to_string()),
    };
    apply_overrides(&mut info, &o);
    assert_eq!(info.device, "d");
    assert_eq!(info.version, "OS2.0.202.0.VNRCNXM");
    assert_eq!(info.sn, "s");
    assert_eq!(info.codebase, "c");
    assert_eq!(info.branch, "X");
    assert_eq!(info.romzone, "F");
    assert_eq!(info.language, "zh");
    assert_eq!(info.region, "CN");
}

#[test]
fn profile_comes_before_overrides() {
    let mut o = no_overrides();
    o.version = Some("V1".to_string());
    let out = prepare_info(&reported(), Some("EEA"), None, &o);
    assert_eq!(out.device, "garnet_eea_global");
    assert_eq!(out.version, "V1");
    assert_eq!(out.branch, "F");
    let out = prepare_info(&reported(), Some("mars"), Some("zircon"), &no_overrides());
    assert_eq!(out, reported());
    let out = prepare_info(&reported(), None, Some("zircon"), &no_overrides());
    assert_eq!(out, reported());
    let out = prepare_info(&reported(), Some("in"), Some("zircon"), &no_overrides());
    assert_eq!(out.device, "zircon_in_global");
    assert_eq!(out.version, "OS2.0.202.0.VNRINXM");
}

#[test]
fn md5_choice_prefers_the_command_line() {
    let own = "5eb63bbbe01eeed093cb22bb8f5acdc3";
    let a = "aaaaaaaaaaaaaaaaaaaaaaaaaaaaaaaa";
    let b = "BBBBBBBBBBBBBBBBBBBBBBBBBBBBBBBB";
    assert_eq!(
        choose_md5(None, None, own),
        Ok(Md5Choice { used: own.to_string(), replaced: false })
    );
    assert_eq!(
        choose_md5(Some(a), Some(b), own),
        Ok(Md5Choice { used: a.to_string(), replaced: true })
    );
    assert_eq!(
        choose_md5(None, Some(b), own),
        Ok(Md5Choice { used: b.to_string(), replaced: true })
    );
    assert_eq!(
        choose_md5(Some("5EB63BBBE01EEED093CB22BB8F5ACDC3"), None, own),
        Ok(Md5Choice { used: "5EB63BBBE01EEED093CB22BB8F5ACDC3".to_string(), replaced: false })
    );
    assert_eq!(choose_md5(Some("abc"), Some(b), own), Err(FlashError::BadMd5));
    assert_eq!(choose_md5(None, Some("xyz"), own), Err(FlashError::BadMd5));
    assert_eq!(choose_md5(None, None, "short"), Err(FlashError::BadMd5));
}

#[test]
fn token_and_erase_rules() {
    let mut r = ValidateResult::default();
    assert_eq!(sideload_token(&r), Err(FlashError::MissingToken));
    assert!(!allow_wipe(&r));
    assert!(!erase_notice(&r, false));
    r.validate_token = Some(String::new());
    assert_eq!(sideload_token(&r), Err(FlashError::MissingToken));
    r.validate_token = Some("tok".to_string());
    assert_eq!(sideload_token(&r), Ok("tok".to_string()));
    r.pkgrom_erase = Some(0);
    assert!(!allow_wipe(&r));
    r.pkgrom_erase = Some(2);
    assert!(!allow_wipe(&r));
    r.pkgrom_erase = Some(1);
    assert!(allow_wipe(&r));
    assert!(erase_notice(&r, false));
    assert!(!erase_notice(&r, true));
}
