//! A payload: the text by which a party states an order, an object of
//! keys and values. This module reads such a text into its members.

use vstd::prelude::*;

verus! {

/// What a member of a payload holds.
#[derive(Clone, Debug, PartialEq)]
pub enum Value {
    /// A text.
    Text(Vec<char>),
    /// A number: its whole part, without sign, fraction and exponent.
    Number(u64),
    /// Anything else: an object, a list, a truth value, nothing.
    Other,
}

/// One member of a payload: a key and what stands under it.
#[derive(Clone, Debug, PartialEq)]
pub struct Member {
    pub key: Vec<char>,
    pub value: Value,
}

/// What a member holds, as plain values.
pub enum ValueView {
    Text(Seq<char>),
    Number(u64),
    Other,
}

/// A member as plain values.
pub struct MemberView {
    pub key: Seq<char>,
    pub value: ValueView,
}

impl View for Value {
    type V = ValueView;

    open spec fn view(&self) -> ValueView {
        match self {
            Value::Text(text) => ValueView::Text(text@),
            Value::Number(number) => ValueView::Number(*number),
            Value::Other => ValueView::Other,
        }
    }
}

impl View for Member {
    type V = MemberView;

    open spec fn view(&self) -> MemberView {
        MemberView { key: self.key@, value: self.value@ }
    }
}

/// The members that a list holds, as plain values.
pub open spec fn member_views(members: Seq<Member>) -> Seq<MemberView> {
    Seq::new(members.len(), |i: int| members[i]@)
}

/// Where a reader stands in a text: inside a string or outside, and, outside,
/// in which run of digits.
pub struct Scan {
    /// Inside a string.
    pub in_string: bool,
    /// Inside a string, behind a backslash.
    pub escaped: bool,
    /// Outside a string, behind the `e` of an exponent and perhaps its sign.
    pub exponent: bool,
    /// Outside a string, inside a run of digits.
    pub in_run: bool,
    /// The number that the digits of the run spell so far.
    pub run_value: nat,
    /// The largest number that the run may spell.
    pub run_limit: nat,
}

/// The largest number that a run of digits may spell.
pub const NUMBER_LIMIT: u64 = 0xffff_ffff_ffff_ffff;

/// The largest number that a run of digits behind an exponent's `e` may spell.
pub const EXPONENT_LIMIT: u64 = 0x7fff_ffff;

/// Where a reader stands before the first byte.
pub open spec fn scan_start() -> Scan {
    Scan { in_string: false, escaped: false, exponent: false, in_run: false, run_value: 0, run_limit: 0 }
}

/// Where a reader stands one byte on; `None` where that byte is a digit
/// with which the run spells more than it may.
pub open spec fn scan_step(scan: Scan, byte: u8) -> Option<Scan> {
    if scan.in_string {
        if scan.escaped {
            Some(Scan { escaped: false, ..scan })
        } else if byte == 92 {
            Some(Scan { escaped: true, ..scan })
        } else if byte == 34 {
            Some(Scan { in_string: false, ..scan })
        } else {
            Some(scan)
        }
    } else if 48 <= byte && byte <= 57 {
        let limit = if scan.in_run {
            scan.run_limit
        } else if scan.exponent {
            EXPONENT_LIMIT as nat
        } else {
            NUMBER_LIMIT as nat
        };
        let value = (if scan.in_run {
            scan.run_value
        } else {
            0
        }) * 10 + (byte - 48);
        if value > limit {
            None
        } else {
            Some(
                Scan {
                    in_string: false,
                    escaped: false,
                    exponent: false,
                    in_run: true,
                    run_value: value as nat,
                    run_limit: limit,
                },
            )
        }
    } else {
        Some(
            Scan {
                in_string: byte == 34,
                escaped: false,
                exponent: byte == 101 || byte == 69 || (scan.exponent && (byte == 43 || byte == 45)),
                in_run: false,
                run_value: 0,
                run_limit: 0,
            },
        )
    }
}

/// Whether a reader that stands at `scan` gets through `text` with every
/// run of digits within its limit.
pub open spec fn scan_passes(scan: Scan, text: Seq<u8>) -> bool
    decreases text.len(),
{
    if text.len() == 0 {
        true
    } else {
        match scan_step(scan, text[0]) {
            Some(next) => scan_passes(next, text.skip(1)),
            None => false,
        }
    }
}

/// Whether a text can be read: it has at most `u32::MAX` bytes, and outside
/// its strings no run of digits spells more than `u64::MAX`, nor, behind the
/// `e` of an exponent, more than `i32::MAX`. A string begins and ends with a
/// quotation mark, and in it a backslash takes the byte behind it along.
pub open spec fn readable(text: Seq<u8>) -> bool {
    text.len() <= u32::MAX && scan_passes(scan_start(), text)
}

/// Whether a text can be read.
pub fn is_readable(text: &[u8]) -> (yes: bool)
    ensures
        yes == readable(text@),
{
    if text.len() > 0xffff_ffff {
        return false;
    }
    let mut in_string = false;
    let mut escaped = false;
    let mut exponent = false;
    let mut in_run = false;
    let mut run_value: u64 = 0;
    let mut run_limit: u64 = 0;
    let mut i: usize = 0;
    assert(text@.skip(0) =~= text@);
    while i < text.len()
        invariant
            i <= text@.len(),
            in_run ==> run_value <= run_limit && run_limit >= EXPONENT_LIMIT,
            scan_passes(scan_start(), text@) == scan_passes(
                Scan {
                    in_string,
                    escaped,
                    exponent,
                    in_run,
                    run_value: run_value as nat,
                    run_limit: run_limit as nat,
                },
                text@.skip(i as int),
            ),
        decreases text@.len() - i,
    {
        let byte = text[i];
        assert(text@.skip(i as int).skip(1) =~= text@.skip(i + 1));
        if in_string {
            if escaped {
                escaped = false;
            } else if byte == 92 {
                escaped = true;
            } else if byte == 34 {
                in_string = false;
            }
        } else if 48 <= byte && byte <= 57 {
            let digit: u64 = (byte - 48) as u64;
            let limit: u64 = if in_run {
                run_limit
            } else if exponent {
                EXPONENT_LIMIT
            } else {
                NUMBER_LIMIT
            };
            let before: u64 = if in_run {
                run_value
            } else {
                0
            };
            if before > (limit - digit) / 10 {
                return false;
            }
            in_string = false;
            escaped = false;
            exponent = false;
            in_run = true;
            run_value = before * 10 + digit;
            run_limit = limit;
        } else {
            in_string = byte == 34;
            escaped = false;
            exponent = byte == 101 || byte == 69 || (exponent && (byte == 43 || byte == 45));
            in_run = false;
            run_value = 0;
            run_limit = 0;
        }
        i += 1;
    }
    true
}

/// What the JSON reader makes of a text: the members of the object that
/// it reads the text as, in the order of the text, each with its key and,
/// of what stands under the key, the characters of a string, the whole part
/// of a number, or that it is something else. `None` where the bytes are no
/// UTF-8 text or the reader does not read them as one object.
pub uninterp spec fn json_members(text: Seq<u8>) -> Option<Seq<MemberView>>;

/// `lite_json::parse_json` on the text that `core::str::from_utf8` makes
/// of the bytes, and `lite_json::JsonValue::to_object` on what it reads:
/// the members of the object, or nothing where one of the three fails. What
/// comes back depends on the bytes alone. The reader adds up the digits of
/// a number without a check, in a `u64`, or in an `i32` for an exponent, and
/// counts its place in the text in a `u32`, so it is called on readable
/// texts only.
#[verifier::external_body]
fn parse_members(text: &[u8]) -> (members: Option<Vec<Member>>)
    requires
        readable(text@),
    ensures
        match members {
            Some(list) => json_members(text@) == Some(member_views(list@)),
            None => json_members(text@) is None,
        },
{
    let object = lite_json::parse_json(core::str::from_utf8(text).ok()?).ok()?.to_object()?;
    let member = |(key, value)| Member {
        key,
        value: match value {
            lite_json::JsonValue::String(text) => Value::Text(text),
            lite_json::JsonValue::Number(number) => Value::Number(number.integer),
            _ => Value::Other,
        },
    };
    Some(object.into_iter().map(member).collect())
}

/// The members of a payload: those of the object that it spells, where it
/// can be read and spells one.
pub open spec fn payload_members(text: Seq<u8>) -> Option<Seq<MemberView>> {
    if readable(text) {
        json_members(text)
    } else {
        None
    }
}

/// Reads a payload into its members.
pub fn read_members(text: &[u8]) -> (members: Option<Vec<Member>>)
    ensures
        match members {
            Some(list) => payload_members(text@) == Some(member_views(list@)),
            None => payload_members(text@) is None,
        },
{
    if is_readable(text) {
        parse_members(text)
    } else {
        None
    }
}

/// The lowest eight bits of each character.
pub open spec fn low_bytes(chars: Seq<char>) -> Seq<u8> {
    Seq::new(chars.len(), |i: int| (chars[i] as u32 % 256) as u8)
}

/// The lowest eight bits of each character.
pub fn to_low_bytes(chars: &Vec<char>) -> (bytes: Vec<u8>)
    ensures
        bytes@ == low_bytes(chars@),
{
    let mut bytes: Vec<u8> = Vec::new();
    let mut i: usize = 0;
    while i < chars.len()
        invariant
            i <= chars@.len(),
            bytes@.len() == i,
            forall|j: int| 0 <= j < i ==> bytes@[j] == (chars@[j] as u32 % 256) as u8,
        decreases chars@.len() - i,
    {
        let wide: u32 = chars[i] as u32;
        bytes.push((wide % 256) as u8);
        i += 1;
    }
    bytes
}

} // verus!
