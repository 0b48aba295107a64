//! The rules that tie the parts together: which server is talked to, what
//! is sent to it about the device, which MD5 is validated, and what the
//! answer allows.

use crate::mi::profile::{apply_profile, profile_named, profiled, RegionProfile};
use crate::mi::{DeviceInfo, DeviceInfoView};
use crate::text::{begins_with, chars_of, lower_text, starts_with, to_lower};
use crate::util::config::{is_md5, is_md5_text};
use crate::validate::ValidateResult;
use vstd::prelude::*;
use vstd::string::StrSliceExecFns;

verus! {

/// Why a flash cannot go on.
#[derive(Debug, Clone, Copy, PartialEq, Eq, Structural)]
pub enum FlashError {
    /// The server's address is not `https://`, and plain HTTP was not
    /// allowed.
    InsecureServer,
    /// The MD5 to validate with is not 32 hexadecimal digits.
    BadMd5,
    /// The server's answer holds no token.
    MissingToken,
}

/// Checks the address of the validation server. Plain HTTP must be
/// allowed explicitly; the result says whether the user is to be warned
/// that it is in use.
pub fn check_server_url(server_url: &str, allow_http: bool) -> (r: Result<bool, FlashError>)
    ensures
        !starts_with(server_url@, "https://"@) && !allow_http ==> r == Err::<bool, FlashError>(
            FlashError::InsecureServer,
        ),
        starts_with(server_url@, "https://"@) || allow_http ==> r == Ok::<bool, FlashError>(
            allow_http && starts_with(server_url@, "http://"@),
        ),
{
    let chars = chars_of(server_url);
    if !begins_with(chars.as_slice(), "https://") && !allow_http {
        return Err(FlashError::InsecureServer);
    }
    Ok(allow_http && begins_with(chars.as_slice(), "http://"))
}

/// Values that the user puts in place of what the device reports.
#[derive(Debug, PartialEq, Eq)]
pub struct Overrides {
    pub device: Option<String>,
    pub version: Option<String>,
    pub sn: Option<String>,
    pub codebase: Option<String>,
    pub branch: Option<String>,
    pub romzone: Option<String>,
}

/// `given` where it is there, else `reported`.
pub open spec fn overridden(reported: Seq<char>, given: Option<String>) -> Seq<char> {
    match given {
        Some(g) => g@,
        None => reported,
    }
}

/// A device's report with the user's values put in.
pub open spec fn with_overrides(info: DeviceInfoView, o: Overrides) -> DeviceInfoView {
    DeviceInfoView {
        device: overridden(info.device, o.device),
        version: overridden(info.version, o.version),
        sn: overridden(info.sn, o.sn),
        codebase: overridden(info.codebase, o.codebase),
        branch: overridden(info.branch, o.branch),
        romzone: overridden(info.romzone, o.romzone),
        ..info
    }
}

/// Puts the user's values in place of what the device reports.
pub fn apply_overrides(info: &mut DeviceInfo, o: &Overrides)
    ensures
        final(info)@ == with_overrides(old(info)@, *o),
{
    match &o.device {
        Some(v) => {
            info.device = v.clone();
        },
        None => {},
    }
    match &o.version {
        Some(v) => {
            info.version = v.clone();
        },
        None => {},
    }
    match &o.sn {
        Some(v) => {
            info.sn = v.clone();
        },
        None => {},
    }
    match &o.codebase {
        Some(v) => {
            info.codebase = v.clone();
        },
        None => {},
    }
    match &o.branch {
        Some(v) => {
            info.branch = v.clone();
        },
        None => {},
    }
    match &o.romzone {
        Some(v) => {
            info.romzone = v.clone();
        },
        None => {},
    }
}

/// What is sent to the server about a device: its report, rewritten for
/// the region profile where one is named and known, then with the user's
/// values put in.
pub open spec fn prepared(
    info: DeviceInfoView,
    profile: Option<Seq<char>>,
    codename: Option<Seq<char>>,
    o: Overrides,
) -> DeviceInfoView {
    let base = match profile {
        Some(name) => match profile_named(lower_text(name)) {
            Some(p) => profiled(info, p, codename),
            None => info,
        },
        None => info,
    };
    with_overrides(base, o)
}

/// Makes what is sent to the server about a device.
pub fn prepare_info(
    info: &DeviceInfo,
    profile: Option<&str>,
    codename: Option<&str>,
    o: &Overrides,
) -> (out: DeviceInfo)
    ensures
        out@ == prepared(
            info@,
            match profile {
                Some(p) => Some(p@),
                None => None,
            },
            match codename {
                Some(c) => Some(c@),
                None => None,
            },
            *o,
        ),
{
    let mut out = match profile {
        Some(name) => match RegionProfile::from_str(name) {
            Some(p) => apply_profile(info, p, codename, true),
            None => info.clone(),
        },
        None => info.clone(),
    };
    apply_overrides(&mut out, o);
    out
}

/// The MD5 that is validated, and whether it is another than the image's
/// own.
#[derive(Debug, PartialEq, Eq)]
pub struct Md5Choice {
    pub used: String,
    pub replaced: bool,
}

/// The MD5 to validate with: the one given on the command line, else the
/// kept one, else the image's own.
pub open spec fn md5_to_use(
    given: Option<Seq<char>>,
    kept: Option<Seq<char>>,
    computed: Seq<char>,
) -> Seq<char> {
    match given {
        Some(g) => g,
        None => match kept {
            Some(k) => k,
            None => computed,
        },
    }
}

fn same_chars(x: &[char], y: &[char]) -> (r: bool)
    ensures
        r == (x@ == y@),
{
    if x.len() != y.len() {
        return false;
    }
    let mut i: usize = 0;
    while i < x.len()
        invariant
            i <= x@.len(),
            x@.len() == y@.len(),
            forall|k: int| 0 <= k < i ==> x@[k] == y@[k],
        decreases x@.len() - i,
    {
        if x[i] != y[i] {
            return false;
        }
        i += 1;
    }
    assert(x@ =~= y@);
    true
}

/// Picks the MD5 to validate with. It must be 32 hexadecimal digits. It
/// counts as replaced where, in lower case, it is not the image's own.
pub fn choose_md5(given: Option<&str>, kept: Option<&str>, computed: &str) -> (r: Result<
    Md5Choice,
    FlashError,
>)
    ensures
        ({
            let used = md5_to_use(
                match given {
                    Some(g) => Some(g@),
                    None => None,
                },
                match kept {
                    Some(k) => Some(k@),
                    None => None,
                },
                computed@,
            );
            if is_md5(used) {
                r is Ok && r->Ok_0.used@ == used && r->Ok_0.replaced == (lower_text(used)
                    != computed@)
            } else {
                r == Err::<Md5Choice, FlashError>(FlashError::BadMd5)
            }
        }),
{
    let used: &str = match given {
        Some(g) => g,
        None => match kept {
            Some(k) => k,
            None => computed,
        },
    };
    let chars = chars_of(used);
    if !is_md5_text(chars.as_slice()) {
        return Err(FlashError::BadMd5);
    }
    let low = to_lower(chars.as_slice());
    let own = chars_of(computed);
    let replaced = !same_chars(low.as_slice(), own.as_slice());
    Ok(Md5Choice { used: used.to_owned(), replaced })
}

/// The token to start a sideload with: the one in the server's answer,
/// which must not be empty.
pub fn sideload_token(result: &ValidateResult) -> (r: Result<String, FlashError>)
    ensures
        match result@.validate_token {
            Some(t) => if t.len() > 0 {
                r is Ok && r->Ok_0@ == t
            } else {
                r == Err::<String, FlashError>(FlashError::MissingToken)
            },
            None => r == Err::<String, FlashError>(FlashError::MissingToken),
        },
{
    match &result.validate_token {
        Some(t) => {
            if t.as_str().unicode_len() > 0 {
                Ok(t.clone())
            } else {
                Err(FlashError::MissingToken)
            }
        },
        None => Err(FlashError::MissingToken),
    }
}

/// Whether the device may wipe its data during the sideload: where the
/// server's answer sets the erase flag to 1.
pub fn allow_wipe(result: &ValidateResult) -> (r: bool)
    ensures
        r == (result@.pkgrom_erase == Some(1i32)),
{
    match result.pkgrom_erase {
        Some(e) => e == 1,
        None => false,
    }
}

/// Whether the user is to be told, and asked to go on, before a flash
/// that erases the device's data: not when `yes` was given.
pub fn erase_notice(result: &ValidateResult, yes: bool) -> (r: bool)
    ensures
        r == (result@.pkgrom_erase == Some(1i32) && !yes),
{
    allow_wipe(result) && !yes
}

} // verus!
