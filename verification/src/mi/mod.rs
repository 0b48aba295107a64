//! What a device says of itself.

pub mod profile;

use vstd::prelude::*;

verus! {

/// The eight fields a device reports, each answered by one text query.
#[derive(Debug, PartialEq, Eq)]
pub struct DeviceInfo {
    pub device: String,
    pub sn: String,
    pub version: String,
    pub codebase: String,
    pub branch: String,
    pub language: String,
    pub region: String,
    pub romzone: String,
}

/// A `DeviceInfo` as a mathematical value.
pub struct DeviceInfoView {
    pub device: Seq<char>,
    pub sn: Seq<char>,
    pub version: Seq<char>,
    pub codebase: Seq<char>,
    pub branch: Seq<char>,
    pub language: Seq<char>,
    pub region: Seq<char>,
    pub romzone: Seq<char>,
}

impl View for DeviceInfo {
    type V = DeviceInfoView;

    open spec fn view(&self) -> DeviceInfoView {
        DeviceInfoView {
            device: self.device@,
            sn: self.sn@,
            version: self.version@,
            codebase: self.codebase@,
            branch: self.branch@,
            language: self.language@,
            region: self.region@,
            romzone: self.romzone@,
        }
    }
}

impl Clone for DeviceInfo {
    fn clone(&self) -> (out: Self)
        ensures
            out@ == self@,
    {
        DeviceInfo {
            device: self.device.clone(),
            sn: self.sn.clone(),
            version: self.version.clone(),
            codebase: self.codebase.clone(),
            branch: self.branch.clone(),
            language: self.language.clone(),
            region: self.region.clone(),
            romzone: self.romzone.clone(),
        }
    }
}

/// Number of fields in a `DeviceInfo`.
pub const INFO_FIELDS: usize = 8;

/// The name of the query that asks for the `i`-th field, in the order in
/// which the fields are asked for: device, sn, version, codebase, branch,
/// language, region, romzone (the last also for any `i` above 7).
pub open spec fn info_query_name(i: int) -> Seq<char> {
    if i == 0 {
        "getdevice:"@
    } else if i == 1 {
        "getsn:"@
    } else if i == 2 {
        "getversion:"@
    } else if i == 3 {
        "getcodebase:"@
    } else if i == 4 {
        "getbranch:"@
    } else if i == 5 {
        "getlanguage:"@
    } else if i == 6 {
        "getregion:"@
    } else {
        "getromzone:"@
    }
}

/// The name of the query that asks for the `i`-th field.
pub fn info_query(i: usize) -> (name: &'static str)
    ensures
        name@ == info_query_name(i as int),
{
    if i == 0 {
        "getdevice:"
    } else if i == 1 {
        "getsn:"
    } else if i == 2 {
        "getversion:"
    } else if i == 3 {
        "getcodebase:"
    } else if i == 4 {
        "getbranch:"
    } else if i == 5 {
        "getlanguage:"
    } else if i == 6 {
        "getregion:"
    } else {
        "getromzone:"
    }
}

impl DeviceInfo {
    /// The snapshot made of the eight answers, in the order of the queries.
    pub fn from_answers(answers: Vec<String>) -> (r: Option<DeviceInfo>)
        ensures
            answers@.len() != INFO_FIELDS ==> r is None,
            answers@.len() == INFO_FIELDS ==> r is Some && r->Some_0@ == (DeviceInfoView {
                device: answers@[0]@,
                sn: answers@[1]@,
                version: answers@[2]@,
                codebase: answers@[3]@,
                branch: answers@[4]@,
                language: answers@[5]@,
                region: answers@[6]@,
                romzone: answers@[7]@,
            }),
    {
        if answers.len() != INFO_FIELDS {
            return None;
        }
        Some(
            DeviceInfo {
                device: answers[0].clone(),
                sn: answers[1].clone(),
                version: answers[2].clone(),
                codebase: answers[3].clone(),
                branch: answers[4].clone(),
                language: answers[5].clone(),
                region: answers[6].clone(),
                romzone: answers[7].clone(),
            },
        )
    }
}

} // verus!
