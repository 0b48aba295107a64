//! Where the latest ROM is to be had: what the server's answer names, and
//! the address to fetch it from.

use crate::json::{parse_json, parsed_json, Json};
use crate::text::{
    begins_with, chars_of, find_char, index_of, last_index_of, lower_text, rfind_char,
    starts_with, string_of, texts_of, to_lower,
};
use vstd::prelude::*;

verus! {

/// The latest ROM that the server names.
#[derive(Debug, PartialEq, Eq)]
pub struct LatestInfo {
    /// The file's name; a query may follow it.
    pub filename: String,
    /// The file's MD5, in hexadecimal.
    pub md5: String,
}

/// Why an answer names no latest ROM, or a download is no good.
#[derive(Debug, Clone, Copy, PartialEq, Eq, Structural)]
pub enum DownloadError {
    /// The text is no JSON document.
    Json,
    /// The answer holds neither `LatestRom` nor `PkgRom`.
    MissingLatest,
    /// The ROM's entry holds no string `filename`.
    MissingFilename,
    /// The ROM's entry holds no string `md5`.
    MissingMd5,
}

/// The texts of those of `items` that are strings, in their order.
pub open spec fn string_items(items: Seq<Json>) -> Seq<Seq<char>>
    decreases items.len(),
{
    if items.len() == 0 {
        Seq::empty()
    } else if items.last() is Str {
        string_items(items.drop_last()).push(items.last()->Str_0@)
    } else {
        string_items(items.drop_last())
    }
}

/// The mirrors that an answer names: the strings in its `MirrorList`; none
/// where it holds no such list.
pub open spec fn mirrors_of(root: Json) -> Seq<Seq<char>> {
    match root.member("MirrorList"@) {
        Some(Json::Array(items)) => string_items(items@),
        _ => Seq::empty(),
    }
}

/// The entry of the latest ROM in an answer: `LatestRom` where the answer
/// holds it, else `PkgRom`.
pub open spec fn latest_entry(root: Json) -> Option<Json> {
    match root.member("LatestRom"@) {
        Some(l) => Some(l),
        None => root.member("PkgRom"@),
    }
}

/// What a parsed answer names as the latest ROM: file name, MD5 and
/// mirrors, or what is missing.
pub open spec fn latest_of(root: Json) -> Result<(Seq<char>, Seq<char>, Seq<Seq<char>>), DownloadError> {
    match latest_entry(root) {
        None => Err(DownloadError::MissingLatest),
        Some(entry) => match entry.member("filename"@) {
            Some(Json::Str(filename)) => match entry.member("md5"@) {
                Some(Json::Str(md5)) => Ok((filename@, md5@, mirrors_of(root))),
                _ => Err(DownloadError::MissingMd5),
            },
            _ => Err(DownloadError::MissingFilename),
        },
    }
}

/// A result of `parse_latest_from_json` as a mathematical value.
pub open spec fn latest_view(r: Result<(LatestInfo, Vec<String>), DownloadError>) -> Result<
    (Seq<char>, Seq<char>, Seq<Seq<char>>),
    DownloadError,
> {
    match r {
        Ok((info, mirrors)) => Ok((info.filename@, info.md5@, texts_of(mirrors@))),
        Err(e) => Err(e),
    }
}

fn mirror_list(root: &Json) -> (mirrors: Vec<String>)
    ensures
        texts_of(mirrors@) == mirrors_of(*root),
{
    let mut mirrors: Vec<String> = Vec::new();
    match root.get("MirrorList") {
        Some(Json::Array(items)) => {
            let mut i: usize = 0;
            assert(items@.take(0) =~= Seq::<Json>::empty());
            assert(texts_of(mirrors@) =~= Seq::<Seq<char>>::empty());
            while i < items.len()
                invariant
                    i <= items@.len(),
                    texts_of(mirrors@) == string_items(items@.take(i as int)),
                decreases items@.len() - i,
            {
                assert(items@.take(i as int + 1).drop_last() =~= items@.take(i as int));
                match &items[i] {
                    Json::Str(t) => {
                        let ghost before = texts_of(mirrors@);
                        mirrors.push(t.clone());
                        assert(texts_of(mirrors@) =~= before.push(t@));
                    },
                    _ => {},
                }
                i += 1;
            }
            assert(items@.take(i as int) =~= items@);
        },
        _ => {
            assert(texts_of(mirrors@) =~= Seq::<Seq<char>>::empty());
        },
    }
    mirrors
}

/// Reads the latest ROM and the mirrors out of a parsed answer.
pub fn latest_from(root: &Json) -> (r: Result<(LatestInfo, Vec<String>), DownloadError>)
    ensures
        latest_view(r) == latest_of(*root),
{
    let entry = match root.get("LatestRom") {
        Some(l) => l,
        None => match root.get("PkgRom") {
            Some(p) => p,
            None => {
                return Err(DownloadError::MissingLatest);
            },
        },
    };
    let filename = match entry.get("filename") {
        Some(Json::Str(f)) => f.clone(),
        _ => {
            return Err(DownloadError::MissingFilename);
        },
    };
    let md5 = match entry.get("md5") {
        Some(Json::Str(m)) => m.clone(),
        _ => {
            return Err(DownloadError::MissingMd5);
        },
    };
    let mirrors = mirror_list(root);
    Ok((LatestInfo { filename, md5 }, mirrors))
}

/// Reads the latest ROM and the mirrors out of the JSON text of an answer.
pub fn parse_latest_from_json(json: &str) -> (r: Result<(LatestInfo, Vec<String>), DownloadError>)
    ensures
        latest_view(r) == match parsed_json(json@) {
            Some(root) => latest_of(root),
            None => Err(DownloadError::Json),
        },
{
    match parse_json(json) {
        Ok(root) => latest_from(&root),
        Err(_) => Err(DownloadError::Json),
    }
}

/// `s` without the run of `c` at its end.
pub open spec fn without_trailing(s: Seq<char>, c: char) -> Seq<char>
    decreases s.len(),
{
    if s.len() > 0 && s.last() == c {
        without_trailing(s.drop_last(), c)
    } else {
        s
    }
}

/// `s` without the run of `c` at its start.
pub open spec fn without_leading(s: Seq<char>, c: char) -> Seq<char>
    decreases s.len(),
{
    if s.len() > 0 && s.first() == c {
        without_leading(s.drop_first(), c)
    } else {
        s
    }
}

/// The first of `mirrors` that begins with `https://`.
pub open spec fn first_secure(mirrors: Seq<Seq<char>>) -> Option<Seq<char>>
    decreases mirrors.len(),
{
    if mirrors.len() == 0 {
        None
    } else if starts_with(mirrors.first(), "https://"@) {
        Some(mirrors.first())
    } else {
        first_secure(mirrors.drop_first())
    }
}

/// The address to fetch `filename` from: the first mirror that begins
/// with `https://`, a slash, and the file name without slashes at its
/// start; where no mirror is secure, the first mirror, a slash, and the
/// file name as it is. Slashes at the end of the mirror are dropped.
/// Without mirrors there is no address.
pub open spec fn chosen_url(mirrors: Seq<Seq<char>>, filename: Seq<char>) -> Option<Seq<char>> {
    match first_secure(mirrors) {
        Some(base) => Some(without_trailing(base, '/') + seq!['/'] + without_leading(filename, '/')),
        None => if mirrors.len() > 0 {
            Some(without_trailing(mirrors.first(), '/') + seq!['/'] + filename)
        } else {
            None
        },
    }
}

fn push_without_trailing(out: &mut Vec<char>, s: &[char], c: char)
    ensures
        final(out)@ == old(out)@ + without_trailing(s@, c),
{
    let mut end: usize = s.len();
    assert(s@.take(end as int) =~= s@);
    while end > 0 && s[end - 1] == c
        invariant
            end <= s@.len(),
            without_trailing(s@, c) == without_trailing(s@.take(end as int), c),
        decreases end,
    {
        assert(s@.take(end as int).drop_last() =~= s@.take(end as int - 1));
        end -= 1;
    }
    out.extend_from_slice(&s[0..end]);
    assert(s@.subrange(0, end as int) =~= s@.take(end as int));
}

fn push_without_leading(out: &mut Vec<char>, s: &[char], c: char)
    ensures
        final(out)@ == old(out)@ + without_leading(s@, c),
{
    let mut start: usize = 0;
    assert(s@.skip(0) =~= s@);
    while start < s.len() && s[start] == c
        invariant
            start <= s@.len(),
            without_leading(s@, c) == without_leading(s@.skip(start as int), c),
        decreases s@.len() - start,
    {
        assert(s@.skip(start as int).drop_first() =~= s@.skip(start as int + 1));
        start += 1;
    }
    out.extend_from_slice(&s[start..s.len()]);
    assert(s@.subrange(start as int, s@.len() as int) =~= s@.skip(start as int));
}

/// Picks the address to fetch `filename` from.
pub fn choose_url(mirrors: &[String], filename: &str) -> (url: Option<String>)
    ensures
        match chosen_url(texts_of(mirrors@), filename@) {
            Some(u) => url is Some && url->Some_0@ == u,
            None => url is None,
        },
{
    let name = chars_of(filename);
    let ghost texts = texts_of(mirrors@);
    let mut i: usize = 0;
    assert(texts.skip(0) =~= texts);
    while i < mirrors.len()
        invariant
            i <= mirrors@.len(),
            texts == texts_of(mirrors@),
            name@ == filename@,
            first_secure(texts) == first_secure(texts.skip(i as int)),
        decreases mirrors@.len() - i,
    {
        let base = chars_of(mirrors[i].as_str());
        assert(texts.skip(i as int).first() == mirrors@[i as int]@);
        if begins_with(base.as_slice(), "https://") {
            let mut out: Vec<char> = Vec::new();
            push_without_trailing(&mut out, base.as_slice(), '/');
            out.push('/');
            push_without_leading(&mut out, name.as_slice(), '/');
            assert(out@ =~= without_trailing(base@, '/') + seq!['/'] + without_leading(
                name@,
                '/',
            ));
            return Some(string_of(out.as_slice()));
        }
        assert(texts.skip(i as int).drop_first() =~= texts.skip(i as int + 1));
        i += 1;
    }
    if mirrors.len() == 0 {
        return None;
    }
    let base = chars_of(mirrors[0].as_str());
    let mut out: Vec<char> = Vec::new();
    push_without_trailing(&mut out, base.as_slice(), '/');
    out.push('/');
    out.extend_from_slice(name.as_slice());
    assert(out@ =~= without_trailing(base@, '/') + seq!['/'] + name@);
    Some(string_of(out.as_slice()))
}

/// The name under which the file at `url` is saved: what follows the last
/// slash, up to the first question mark.
pub open spec fn file_name_of(url: Seq<char>) -> Seq<char> {
    let segment = url.skip(last_index_of(url, '/') + 1);
    segment.take(index_of(segment, '?'))
}

/// The name under which the file at `url` is saved.
pub fn download_file_name(url: &str) -> (name: String)
    ensures
        name@ == file_name_of(url@),
{
    let chars = chars_of(url);
    let len = chars.len();
    let start: usize = match rfind_char(chars.as_slice(), '/') {
        Some(i) => if i < len {
            i + 1
        } else {
            len
        },
        None => 0,
    };
    let segment = &chars.as_slice()[start..chars.len()];
    assert(segment@ =~= url@.skip(last_index_of(url@, '/') + 1));
    let end: usize = match find_char(segment, '?') {
        Some(i) => i,
        None => segment.len(),
    };
    assert(segment@.subrange(0, end as int) =~= segment@.take(end as int));
    string_of(&segment[0..end])
}

/// Whether two MD5 sums in hexadecimal are the same, upper and lower case
/// taken alike.
pub fn md5_matches(got: &str, expected: &str) -> (r: bool)
    ensures
        r == (lower_text(got@) == lower_text(expected@)),
{
    let a = chars_of(got);
    let b = chars_of(expected);
    let x = to_lower(a.as_slice());
    let y = to_lower(b.as_slice());
    if x.len() != y.len() {
        return false;
    }
    let mut i: usize = 0;
    while i < x.len()
        invariant
            i <= x@.len(),
            x@.len() == y@.len(),
            x@ == lower_text(got@),
            y@ == lower_text(expected@),
            forall|k: int| 0 <= k < i ==> x@[k] == y@[k],
        decreases x@.len() - i,
    {
        if x[i] != y[i] {
            return false;
        }
        i += 1;
    }
    assert(x@ =~= y@);
    true
}

} // verus!
