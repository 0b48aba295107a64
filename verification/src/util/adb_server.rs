//! The requests that a local ADB server understands, and its answers.

use vstd::prelude::*;
use vstd::string::StringSliceAdditionalSpecFns;

verus! {

/// The port a local ADB server listens on.
pub const ADB_SERVER_PORT: u16 = 5037;

/// The lower-case hexadecimal digit for a value below 16, as a byte.
pub open spec fn hex_digit_byte(n: int) -> u8 {
    if n < 10 {
        (0x30 + n) as u8
    } else {
        (0x61 + n - 10) as u8
    }
}

/// `n` in lower-case hexadecimal, without leading zeros.
pub open spec fn hex_digits(n: nat) -> Seq<u8>
    decreases n,
{
    if n < 16 {
        seq![hex_digit_byte(n as int)]
    } else {
        hex_digits(n / 16).push(hex_digit_byte((n % 16) as int))
    }
}

/// `n` in lower-case hexadecimal, with zeros before it up to four digits.
pub open spec fn hex_width_4(n: nat) -> Seq<u8> {
    let d = hex_digits(n);
    if d.len() >= 4 {
        d
    } else {
        Seq::new((4 - d.len()) as nat, |i: int| 0x30u8) + d
    }
}

/// A request as the server reads it: its length in four hexadecimal
/// digits, then its bytes.
pub open spec fn framed(req: Seq<u8>) -> Seq<u8> {
    hex_width_4(req.len()) + req
}

fn hex_byte(n: usize) -> (b: u8)
    requires
        n < 16,
    ensures
        b == hex_digit_byte(n as int),
{
    if n < 10 {
        0x30 + n as u8
    } else {
        0x61 + (n as u8 - 10)
    }
}

/// Frames a request for the server.
pub fn frame_request(req: &str) -> (out: Vec<u8>)
    ensures
        out@ == framed(req.spec_bytes()),
{
    let bytes = req.as_bytes();
    let mut rev: Vec<u8> = Vec::new();
    let mut m: usize = bytes.len();
    while m >= 16
        invariant
            hex_digits(bytes@.len()) == hex_digits(m as nat) + rev@.reverse(),
        decreases m,
    {
        let d = hex_byte(m % 16);
        proof {
            assert(hex_digits((m / 16) as nat).push(d) + rev@.reverse() =~= hex_digits(
                (m / 16) as nat,
            ) + rev@.push(d).reverse());
        }
        rev.push(d);
        m = m / 16;
    }
    let d = hex_byte(m);
    proof {
        assert(seq![d] + rev@.reverse() =~= rev@.push(d).reverse());
    }
    rev.push(d);
    let ghost digits = rev@.reverse();
    assert(digits == hex_digits(bytes@.len()));
    let mut out: Vec<u8> = Vec::new();
    let mut pad: usize = rev.len();
    while pad < 4
        invariant
            rev@.len() <= pad,
            rev@.len() < 4 ==> pad <= 4,
            rev@.len() >= 4 ==> pad == rev@.len(),
            out@ == Seq::new((pad - rev@.len()) as nat, |i: int| 0x30u8),
        decreases 4 - pad,
    {
        out.push(0x30);
        pad += 1;
        assert(out@ =~= Seq::new((pad - rev@.len()) as nat, |i: int| 0x30u8));
    }
    let ghost zeros = out@;
    let mut i: usize = rev.len();
    while i > 0
        invariant
            i <= rev@.len(),
            out@ == zeros + rev@.reverse().take(rev@.len() - i),
        decreases i,
    {
        i -= 1;
        out.push(rev[i]);
        assert(out@ =~= zeros + rev@.reverse().take(rev@.len() - i));
    }
    assert(rev@.reverse().take(rev@.len() as int) =~= digits);
    assert(out@ =~= hex_width_4(bytes@.len()));
    out.extend_from_slice(bytes);
    out
}

/// What the four status bytes of the server say.
#[derive(Debug, Clone, Copy, PartialEq, Eq, Structural)]
pub enum ServerStatus {
    /// `OKAY`.
    Okay,
    /// `FAIL`: a length and a message follow.
    Fail,
    /// Anything else.
    Other,
}

/// The bytes `OKAY`.
pub const OKAY_BYTES: [u8; 4] = [0x4f, 0x4b, 0x41, 0x59];

/// The bytes `FAIL`.
pub const FAIL_BYTES: [u8; 4] = [0x46, 0x41, 0x49, 0x4c];

/// Reads the four status bytes of the server.
pub fn read_status(status: &[u8; 4]) -> (r: ServerStatus)
    ensures
        r == if status@ == OKAY_BYTES@ {
            ServerStatus::Okay
        } else if status@ == FAIL_BYTES@ {
            ServerStatus::Fail
        } else {
            ServerStatus::Other
        },
{
    if status[0] == 0x4f && status[1] == 0x4b && status[2] == 0x41 && status[3] == 0x59 {
        assert(status@ =~= OKAY_BYTES@);
        ServerStatus::Okay
    } else if status[0] == 0x46 && status[1] == 0x41 && status[2] == 0x49 && status[3] == 0x4c {
        assert(status@ =~= FAIL_BYTES@);
        ServerStatus::Fail
    } else {
        assert(status@[0] != OKAY_BYTES@[0] || status@[1] != OKAY_BYTES@[1] || status@[2]
            != OKAY_BYTES@[2] || status@[3] != OKAY_BYTES@[3]);
        assert(status@[0] != FAIL_BYTES@[0] || status@[1] != FAIL_BYTES@[1] || status@[2]
            != FAIL_BYTES@[2] || status@[3] != FAIL_BYTES@[3]);
        ServerStatus::Other
    }
}

/// Whether a server is taken to run on the port: not where nothing
/// accepted the connection; where a status came back, only if it is
/// `OKAY` or `FAIL`; else yes.
pub fn is_running(connected: bool, status: Option<ServerStatus>) -> (r: bool)
    ensures
        r == (connected && match status {
            Some(s) => s != ServerStatus::Other,
            None => true,
        }),
{
    if !connected {
        return false;
    }
    match status {
        Some(ServerStatus::Okay) => true,
        Some(ServerStatus::Fail) => true,
        Some(ServerStatus::Other) => false,
        None => true,
    }
}

/// The value of a hexadecimal digit, given as a byte.
pub open spec fn hex_byte_value(b: u8) -> Option<nat> {
    if 0x30 <= b && b <= 0x39 {
        Some((b - 0x30) as nat)
    } else if 0x61 <= b && b <= 0x66 {
        Some((b - 0x61 + 10) as nat)
    } else if 0x41 <= b && b <= 0x46 {
        Some((b - 0x41 + 10) as nat)
    } else {
        None
    }
}

/// The number that hexadecimal digits write; `None` where one of them is
/// no digit.
pub open spec fn hex_number(s: Seq<u8>) -> Option<nat>
    decreases s.len(),
{
    if s.len() == 0 {
        Some(0)
    } else {
        match (hex_number(s.drop_last()), hex_byte_value(s.last())) {
            (Some(n), Some(d)) => Some(n * 16 + d),
            _ => None,
        }
    }
}

/// The length that the four bytes after a `FAIL` announce: hexadecimal
/// digits, the first of which may be a `+` instead.
pub open spec fn announced_length(len: Seq<u8>) -> Option<nat> {
    if len[0] == 0x2b {
        hex_number(len.subrange(1, 4))
    } else {
        hex_number(len)
    }
}

fn hex_value(b: u8) -> (r: Option<usize>)
    ensures
        match hex_byte_value(b) {
            Some(v) => r == Some(v as usize) && v < 16,
            None => r is None,
        },
{
    if 0x30 <= b && b <= 0x39 {
        Some((b - 0x30) as usize)
    } else if 0x61 <= b && b <= 0x66 {
        Some((b - 0x61 + 10) as usize)
    } else if 0x41 <= b && b <= 0x46 {
        Some((b - 0x41 + 10) as usize)
    } else {
        None
    }
}

/// Reads the length of the message that follows a `FAIL`.
pub fn fail_length(len: &[u8; 4]) -> (r: Option<usize>)
    ensures
        match announced_length(len@) {
            Some(n) => r == Some(n as usize) && n <= 0xffff,
            None => r is None,
        },
{
    let first: usize = if len[0] == 0x2b {
        1
    } else {
        0
    };
    let ghost digits = len@.subrange(first as int, 4);
    assert(first == 0 ==> digits =~= len@);
    let mut value: usize = 0;
    let mut i: usize = first;
    assert(digits.take(0) =~= Seq::<u8>::empty());
    while i < 4
        invariant
            first <= i <= 4,
            first <= 1,
            digits == len@.subrange(first as int, 4),
            announced_length(len@) == hex_number(digits),
            hex_number(digits.take(i - first)) == Some(value as nat),
            i - first == 0 ==> value == 0,
            i - first == 1 ==> value < 0x10,
            i - first == 2 ==> value < 0x100,
            i - first == 3 ==> value < 0x1000,
            i - first == 4 ==> value < 0x10000,
        decreases 4 - i,
    {
        assert(digits.take(i - first + 1).drop_last() =~= digits.take(i - first));
        assert(digits.take(i - first + 1).last() == len@[i as int]);
        match hex_value(len[i]) {
            Some(d) => {
                value = value * 16 + d;
            },
            None => {
                proof {
                    assert(hex_number(digits.take(i - first + 1)) is None);
                    lemma_hex_number_prefix(digits, i - first + 1);
                }
                return None;
            },
        }
        i += 1;
    }
    assert(digits.take(4 - first) =~= digits);
    Some(value)
}

/// Digits that write no number do not begin digits that write one.
proof fn lemma_hex_number_prefix(s: Seq<u8>, n: int)
    requires
        0 <= n <= s.len(),
        hex_number(s.take(n)) is None,
    ensures
        hex_number(s) is None,
    decreases s.len(),
{
    if n < s.len() {
        assert(s.drop_last().take(n) =~= s.take(n));
        lemma_hex_number_prefix(s.drop_last(), n);
    } else {
        assert(s.take(n) =~= s);
    }
}

} // verus!
