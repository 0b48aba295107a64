//! Region profiles: how a device's name and version are rewritten before
//! validation.

use crate::mi::{DeviceInfo, DeviceInfoView};
use crate::text::{
    chars_of, index_of, is_text, last_index_of, lower_text, rfind_char, find_char, string_of,
    to_lower,
};
use vstd::prelude::*;

verus! {

/// The regions a ROM is built for.
#[derive(Debug, Clone, Copy, PartialEq, Eq, Structural)]
pub enum RegionProfile {
    Global,
    Eea,
    In,
    Ru,
    Id,
    Tr,
    Tw,
    Cn,
}

/// The profile that a name stands for, the name given in lower case.
pub open spec fn profile_named(name: Seq<char>) -> Option<RegionProfile> {
    if name == "global"@ || name == "mi"@ {
        Some(RegionProfile::Global)
    } else if name == "eea"@ || name == "eu"@ {
        Some(RegionProfile::Eea)
    } else if name == "in"@ || name == "india"@ {
        Some(RegionProfile::In)
    } else if name == "ru"@ || name == "russia"@ {
        Some(RegionProfile::Ru)
    } else if name == "id"@ || name == "indo"@ || name == "indonesia"@ {
        Some(RegionProfile::Id)
    } else if name == "tr"@ || name == "turkey"@ {
        Some(RegionProfile::Tr)
    } else if name == "tw"@ || name == "taiwan"@ {
        Some(RegionProfile::Tw)
    } else if name == "cn"@ || name == "china"@ {
        Some(RegionProfile::Cn)
    } else {
        None
    }
}

/// What a profile appends to a codename to make the device name.
pub open spec fn device_suffix(profile: RegionProfile) -> Seq<char> {
    match profile {
        RegionProfile::Global => "_global"@,
        RegionProfile::Eea => "_eea_global"@,
        RegionProfile::In => "_in_global"@,
        RegionProfile::Ru => "_ru_global"@,
        RegionProfile::Id => "_id_global"@,
        RegionProfile::Tr => "_tr_global"@,
        RegionProfile::Tw => "_tw_global"@,
        RegionProfile::Cn => ""@,
    }
}

/// The four letters that end the version of a profile's ROMs.
pub open spec fn version_code(profile: RegionProfile) -> Seq<char> {
    match profile {
        RegionProfile::Global => "MIXM"@,
        RegionProfile::Eea => "EUXM"@,
        RegionProfile::In => "INXM"@,
        RegionProfile::Ru => "RUXM"@,
        RegionProfile::Id => "IDXM"@,
        RegionProfile::Tr => "TRXM"@,
        RegionProfile::Tw => "TWXM"@,
        RegionProfile::Cn => "CNXM"@,
    }
}

/// The codename in a device name: what stands before its first underscore,
/// or all of it where it has none.
pub open spec fn codename_of(device: Seq<char>) -> Seq<char> {
    device.take(index_of(device, '_'))
}

/// `version` with the last four characters replaced by `code`, where a dot
/// stands in it and at least four characters follow the last dot; else
/// `version` as it is.
pub open spec fn with_region_code(version: Seq<char>, code: Seq<char>) -> Seq<char> {
    let dot = last_index_of(version, '.');
    if dot >= 0 && version.len() - (dot + 1) >= 4 {
        version.take(version.len() - 4) + code
    } else {
        version
    }
}

impl RegionProfile {
    /// The profile that `s` names, in upper or lower case.
    pub fn from_str(s: &str) -> (r: Option<Self>)
        ensures
            r == profile_named(lower_text(s@)),
    {
        let chars = chars_of(s);
        let low = to_lower(chars.as_slice());
        let name = low.as_slice();
        if is_text(name, "global") || is_text(name, "mi") {
            Some(RegionProfile::Global)
        } else if is_text(name, "eea") || is_text(name, "eu") {
            Some(RegionProfile::Eea)
        } else if is_text(name, "in") || is_text(name, "india") {
            Some(RegionProfile::In)
        } else if is_text(name, "ru") || is_text(name, "russia") {
            Some(RegionProfile::Ru)
        } else if is_text(name, "id") || is_text(name, "indo") || is_text(name, "indonesia") {
            Some(RegionProfile::Id)
        } else if is_text(name, "tr") || is_text(name, "turkey") {
            Some(RegionProfile::Tr)
        } else if is_text(name, "tw") || is_text(name, "taiwan") {
            Some(RegionProfile::Tw)
        } else if is_text(name, "cn") || is_text(name, "china") {
            Some(RegionProfile::Cn)
        } else {
            None
        }
    }

    /// The device name of this profile for a codename.
    pub fn device_name(&self, codename: &str) -> (name: String)
        ensures
            name@ == codename@ + device_suffix(*self),
    {
        let suffix = match self {
            RegionProfile::Global => "_global",
            RegionProfile::Eea => "_eea_global",
            RegionProfile::In => "_in_global",
            RegionProfile::Ru => "_ru_global",
            RegionProfile::Id => "_id_global",
            RegionProfile::Tr => "_tr_global",
            RegionProfile::Tw => "_tw_global",
            RegionProfile::Cn => "",
        };
        let mut name = chars_of(codename);
        let tail = chars_of(suffix);
        name.extend_from_slice(tail.as_slice());
        string_of(name.as_slice())
    }

    /// The four letters that end the version of this profile's ROMs.
    pub fn version_suffix(&self) -> (code: &'static str)
        ensures
            code@ == version_code(*self),
    {
        match self {
            RegionProfile::Global => "MIXM",
            RegionProfile::Eea => "EUXM",
            RegionProfile::In => "INXM",
            RegionProfile::Ru => "RUXM",
            RegionProfile::Id => "IDXM",
            RegionProfile::Tr => "TRXM",
            RegionProfile::Tw => "TWXM",
            RegionProfile::Cn => "CNXM",
        }
    }
}

/// The codename in a device name.
pub fn derive_codename(device: &str) -> (codename: String)
    ensures
        codename@ == codename_of(device@),
{
    let chars = chars_of(device);
    let end = match find_char(chars.as_slice(), '_') {
        Some(i) => i,
        None => chars.len(),
    };
    string_of(&chars.as_slice()[0..end])
}

/// Replaces the last four characters of a version by `new_suffix`.
pub fn replace_version_region_suffix(version: &str, new_suffix: &str) -> (out: String)
    ensures
        out@ == with_region_code(version@, new_suffix@),
{
    let chars = chars_of(version);
    match rfind_char(chars.as_slice(), '.') {
        Some(dot) => {
            if chars.len() - (dot + 1) >= 4 {
                let mut out: Vec<char> = Vec::new();
                out.extend_from_slice(&chars.as_slice()[0..chars.len() - 4]);
                let code = chars_of(new_suffix);
                out.extend_from_slice(code.as_slice());
                assert(out@ =~= with_region_code(version@, new_suffix@));
                return string_of(out.as_slice());
            }
        },
        None => {},
    }
    string_of(chars.as_slice())
}

/// What a profile makes of a device's report: the device name is built
/// from the codename, the version gets the profile's four letters, the
/// branch becomes `F`; every other field stays.
pub open spec fn profiled(
    info: DeviceInfoView,
    profile: RegionProfile,
    codename: Option<Seq<char>>,
) -> DeviceInfoView {
    let name = match codename {
        Some(c) => c,
        None => codename_of(info.device),
    };
    DeviceInfoView {
        device: name + device_suffix(profile),
        version: with_region_code(info.version, version_code(profile)),
        branch: "F"@,
        ..info
    }
}

/// Rewrites a device's report for a region. The codename is the one
/// given, else the one in the reported device name. The codebase is kept,
/// whatever `keep_codebase` says.
pub fn apply_profile(
    info: &DeviceInfo,
    profile: RegionProfile,
    codename_override: Option<&str>,
    keep_codebase: bool,
) -> (out: DeviceInfo)
    ensures
        out@ == profiled(
            info@,
            profile,
            match codename_override {
                Some(c) => Some(c@),
                None => None,
            },
        ),
{
    let device = match codename_override {
        Some(c) => profile.device_name(c),
        None => {
            let codename = derive_codename(info.device.as_str());
            profile.device_name(codename.as_str())
        },
    };
    let version = replace_version_region_suffix(info.version.as_str(), profile.version_suffix());
    let mut out = info.clone();
    out.device = device;
    out.version = version;
    out.branch = "F".to_owned();
    out
}

/// Replacing the region code keeps the number of characters: for every
/// version whose part after the last dot has at least four characters, and
/// every code of four characters.
pub proof fn lemma_region_code_keeps_length(version: Seq<char>, code: Seq<char>)
    requires
        last_index_of(version, '.') >= 0,
        version.len() - (last_index_of(version, '.') + 1) >= 4,
        code.len() == 4,
    ensures
        with_region_code(version, code).len() == version.len(),
{
}

} // verus!
