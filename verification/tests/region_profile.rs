use miassistant::mi::profile::{
    apply_profile, derive_codename, replace_version_region_suffix, RegionProfile,
};
use miassistant::mi::{info_query, DeviceInfo, INFO_FIELDS};

fn info(device: &str, version: &str) -> DeviceInfo {
    DeviceInfo {
        device: device.to_string(),
        sn: "SN1".to_string(),
        version: version.to_string(),
        codebase: "14".to_string(),
        branch: "X".to_string(),
        language: "zh".to_string(),
        region: "CN".to_string(),
        romzone: "1".to_string(),
    }
}

#[test]
fn region_profile_scenario() {
    let before = info("garnet", "OS2.0.202.0.VNRCNXM");
    let out = apply_profile(&before, RegionProfile::Eea, None, true);
    assert_eq!(out.device, "garnet_eea_global");
    assert_eq!(out.version, "OS2.0.202.0.VNREUXM");
    assert_eq!(out.branch, "F");
    assert_eq!(out.sn, "SN1");
    assert_eq!(out.codebase, "14");
    assert_eq!(out.language, "zh");
    assert_eq!(out.region, "CN");
    assert_eq!(out.romzone, "1");
}

#[test]
fn codebase_is_kept_either_way() {
    let before = info("garnet_in_global", "OS2.0.202.0.VNRINXM");
    let kept = apply_profile(&before, RegionProfile::Cn, None, true);
    let not_kept = apply_profile(&before, RegionProfile::Cn, None, false);
    assert_eq!(kept, not_kept);
    assert_eq!(kept.codebase, "14");
    assert_eq!(kept.device, "garnet");
    assert_eq!(kept.version, "OS2.0.202.0.VNRCNXM");
}

#[test]
fn codename_override_wins() {
    let before = info("garnet_in_global", "V14.0.1.0.TKAMIXM");
    let out = apply_profile(&before, RegionProfile::Ru, Some("zircon"), true);
    assert_eq!(out.device, "zircon_ru_global");
    assert_eq!(out.version, "V14.0.1.0.TKARUXM");
}

#[test]
fn profile_names() {
    let cases = [
        ("global", RegionProfile::Global),
        ("MI", RegionProfile::Global),
        ("eea", RegionProfile::Eea),
        ("Eu", RegionProfile::Eea),
        ("in", RegionProfile::In),
        ("INDIA", RegionProfile::In),
        ("ru", RegionProfile::Ru),
        ("russia", RegionProfile::Ru),
        ("id", RegionProfile::Id),
        ("indo", RegionProfile::Id),
        ("Indonesia", RegionProfile::Id),
        ("tr", RegionProfile::Tr),
        ("turkey", RegionProfile::Tr),
        ("tw", RegionProfile::Tw),
        ("TaiWan", RegionProfile::Tw),
        ("cn", RegionProfile::Cn),
        ("china", RegionProfile::Cn),
    ];
    for (name, profile) in cases {
        assert_eq!(RegionProfile::from_str(name), Some(profile), "{}", name);
    }
    for name in ["", "us", " eea", "eea ", "globall", "\u{130}n"] {
        assert_eq!(RegionProfile::from_str(name), None, "{:?}", name);
    }
}

#[test]
fn device_names_and_version_codes() {
    let cases = [
        (RegionProfile::Global, "x_global", "MIXM"),
        (RegionProfile::Eea, "x_eea_global", "EUXM"),
        (RegionProfile::In, "x_in_global", "INXM"),
        (RegionProfile::Ru, "x_ru_global", "RUXM"),
        (RegionProfile::Id, "x_id_global", "IDXM"),
        (RegionProfile::Tr, "x_tr_global", "TRXM"),
        (RegionProfile::Tw, "x_tw_global", "TWXM"),
        (RegionProfile::Cn, "x", "CNXM"),
    ];
    for (profile, device, code) in cases {
        assert_eq!(profile.device_name("x"), device);
        assert_eq!(profile.version_suffix(), code);
    }
}

#[test]
fn codename_is_what_stands_before_the_first_underscore() {
    assert_eq!(derive_codename("garnet_in_global"), "garnet");
    assert_eq!(derive_codename("garnet_global"), "garnet");
    assert_eq!(derive_codename("garnet"), "garnet");
    assert_eq!(derive_codename("_x"), "");
    assert_eq!(derive_codename(""), "");
}

#[test]
fn version_suffix_replacement_keeps_the_length() {
    for version in ["OS2.0.202.0.VNRINXM", "V14.0.1.0.TKAMIXM", "a.bcde", "..1234", "x.\u{e9}\u{e9}\u{e9}\u{e9}\u{e9}"] {
        for code in ["MIXM", "EUXM", "zzzz"] {
            let out = replace_version_region_suffix(version, code);
            assert_eq!(out.chars().count(), version.chars().count());
            assert!(out.ends_with(code));
        }
    }
    assert_eq!(replace_version_region_suffix("a.bcde", "WXYZ"), "a.WXYZ");
    assert_eq!(replace_version_region_suffix("OS2.0.202.0.VNRINXM", "EU"), "OS2.0.202.0.VNREU");
}

#[test]
fn version_without_a_long_tail_stays() {
    assert_eq!(replace_version_region_suffix("nodots", "MIXM"), "nodots");
    assert_eq!(replace_version_region_suffix("1.2.abc", "MIXM"), "1.2.abc");
    assert_eq!(replace_version_region_suffix("abcdefgh.", "MIXM"), "abcdefgh.");
    assert_eq!(replace_version_region_suffix("", "MIXM"), "");
}

#[test]
fn info_queries_in_order() {
    let names: Vec<&str> = (0..INFO_FIELDS).map(info_query).collect();
    assert_eq!(
        names,
        vec![
            "getdevice:",
            "getsn:",
            "getversion:",
            "getcodebase:",
            "getbranch:",
            "getlanguage:",
            "getregion:",
            "getromzone:"
        ]
    );
}

#[test]
fn info_from_answers() {
    let answers: Vec<String> = ["d", "s", "v", "c", "b", "l", "r", "z"].iter().map(|s| s.to_string()).collect();
    let info = DeviceInfo::from_answers(answers.clone()).unwrap();
    assert_eq!(
        info,
        DeviceInfo {
            device: "d".to_string(),
            sn: "s".to_string(),
            version: "v".to_string(),
            codebase: "c".to_string(),
            branch: "b".to_string(),
            language: "l".to_string(),
            region: "r".to_string(),
            romzone: "z".to_string(),
        }
    );
    assert_eq!(info.clone(), info);
    assert_eq!(DeviceInfo::from_answers(answers[..7].to_vec()), None);
    assert_eq!(DeviceInfo::from_answers(Vec::new()), None);
}
