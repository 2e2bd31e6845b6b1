//! Offsets from UTC: UTC itself, a fixed number of seconds, or a time zone.

use crate::radix::{digit_byte, lemma_render_is_digits, render, render_digits};
use tz::timezone::{LocalTimeType, TimeZoneRef};
use vstd::prelude::*;
use vstd::utf8::{encode_utf8, valid_utf8};

verus! {

pub const SECONDS_IN_MINUTE: i32 = 60;

pub const SECONDS_IN_HOUR: i32 = 3600;

pub const SECONDS_IN_DAY: i32 = 86400;

/// The largest fixed offset east of UTC, in seconds: one second short of a
/// day.
pub const MAX_OFFSET_SECONDS: i32 = 86399;

/// The largest fixed offset west of UTC, in seconds: one second short of a
/// day.
pub const MIN_OFFSET_SECONDS: i32 = -86399;

/// The text is no offset.
#[derive(Clone, Copy, Debug, PartialEq, Eq, Structural)]
pub struct TzStringError;

impl TzStringError {
    pub fn new() -> (error: TzStringError)
        ensures
            error == TzStringError,
    {
        TzStringError
    }
}

/// The offset is a day or more.
#[derive(Clone, Copy, Debug, PartialEq, Eq, Structural)]
pub struct TzOutOfRangeError;

impl TzOutOfRangeError {
    pub fn new() -> (error: TzOutOfRangeError)
        ensures
            error == TzOutOfRangeError,
    {
        TzOutOfRangeError
    }
}

/// What goes wrong with times.
#[derive(Clone, Copy, Debug, PartialEq, Eq, Structural)]
pub enum TimeError {
    TzStringError(TzStringError),
    TzOutOfRangeError(TzOutOfRangeError),
    Unknown,
}

#[verifier::external_type_specification]
#[verifier::external_body]
pub struct ExLocalTimeType(LocalTimeType);

#[verifier::external_type_specification]
#[verifier::external_body]
pub struct ExTimeZoneRef<'a>(TimeZoneRef<'a>);

/// True for the bytes that a time zone designation is made of: digits,
/// letters, `+` and `-`.
pub open spec fn is_designation_byte(byte: u8) -> bool {
    ||| 0x30 <= byte <= 0x39
    ||| 0x41 <= byte <= 0x5a
    ||| 0x61 <= byte <= 0x7a
    ||| byte == 0x2b
    ||| byte == 0x2d
}

/// True for a time zone designation: three to seven designation bytes.
pub open spec fn is_designation(bytes: Seq<u8>) -> bool {
    &&& 3 <= bytes.len() <= 7
    &&& forall|i: int| 0 <= i < bytes.len() ==> is_designation_byte(#[trigger] bytes[i])
}

/// Makes a local time type without daylight saving time, with
/// `tz::timezone::LocalTimeType::new`. Trusted: that function refuses the
/// offset `i32::MIN` and a designation that is not three to seven bytes out
/// of digits, letters, `+` and `-`, and nothing else.
#[verifier::external_body]
fn local_time_type(ut_offset: i32, designation: &[u8]) -> (local: Option<LocalTimeType>)
    ensures
        local is Some == (ut_offset != i32::MIN && is_designation(designation@)),
{
    LocalTimeType::new(ut_offset, false, Some(designation)).ok()
}

/// The time zone of UTC, from `tz::timezone::TimeZoneRef::utc`. Nothing is
/// claimed of it.
#[verifier::external_body]
fn utc_time_zone() -> TimeZoneRef<'static> {
    TimeZoneRef::utc()
}

/// The time zone GMT of the time zone database, `tzdb::time_zone::etc::GMT`.
/// Nothing is claimed of it.
#[verifier::external_body]
fn gmt_time_zone() -> TimeZoneRef<'static> {
    tzdb::time_zone::etc::GMT
}

/// The time zone that is always at one local time type, from
/// `tz::timezone::TimeZoneRef::new` with no transitions, no leap seconds and
/// no rule. Nothing is claimed of it, not even that there is one.
#[verifier::external_body]
fn fixed_time_zone<'a>(local: &'a LocalTimeType) -> Option<TimeZoneRef<'a>> {
    TimeZoneRef::new(&[], core::slice::from_ref(local), &[], &None).ok()
}

/// Makes a string out of UTF-8 bytes with `String::from_utf8`. Trusted: the
/// string is the text that the bytes encode.
#[verifier::external_body]
fn string_from_utf8(bytes: Vec<u8>) -> (text: String)
    requires
        valid_utf8(bytes@),
    ensures
        encode_utf8(text@) == bytes@,
{
    String::from_utf8(bytes).unwrap_or_default()
}

/// A number in decimal digits, with a zero in front where it has but one.
pub open spec fn two_digits(number: int) -> Seq<u8> {
    if number < 10 {
        seq![0x30u8] + render(number, 10)
    } else {
        render(number, 10)
    }
}

/// The text `[+-]HHMM` for an offset in seconds. The seconds beyond the last
/// whole minute do not show.
pub open spec fn hhmm(seconds: int) -> Seq<u8> {
    let minutes = (if seconds < 0 {
        -seconds
    } else {
        seconds
    }) / 60;
    let hours = minutes / 60;
    seq![if seconds < 0 {
        0x2du8
    } else {
        0x2bu8
    }] + two_digits(hours) + two_digits(minutes - hours * 60)
}

/// Below a hundred, two digits are two digits.
pub proof fn lemma_two_digits(number: int)
    requires
        0 <= number < 100,
    ensures
        two_digits(number) == seq![digit_byte(number / 10), digit_byte(number % 10)],
{
    if number >= 10 {
        assert(render(number, 10) == render(number / 10, 10).push(digit_byte(number % 10)));
        assert(render(number / 10, 10) == seq![digit_byte(number / 10)]);
        assert(render(number, 10) =~= seq![digit_byte(number / 10), digit_byte(number % 10)]);
    } else {
        assert(render(number, 10) == seq![digit_byte(number)]);
        assert(seq![0x30u8] + render(number, 10) =~= seq![
            digit_byte(number / 10),
            digit_byte(number % 10),
        ]);
    }
}

/// Within a day of UTC the text of an offset is a sign and four digits,
/// which is a time zone designation.
pub proof fn lemma_hhmm_is_designation(seconds: int)
    requires
        MIN_OFFSET_SECONDS <= seconds <= MAX_OFFSET_SECONDS,
    ensures
        hhmm(seconds).len() == 5,
        is_designation(hhmm(seconds)),
{
    let minutes = (if seconds < 0 {
        -seconds
    } else {
        seconds
    }) / 60;
    let hours = minutes / 60;
    lemma_two_digits(hours);
    lemma_two_digits(minutes - hours * 60);
}

/// Appends a number in decimal digits, with a zero in front where it has
/// but one.
fn push_two_digits(text: &mut Vec<u8>, number: u32)
    requires
        forall|i: int| 0 <= i < old(text)@.len() ==> old(text)@[i] < 0x80,
    ensures
        final(text)@ == old(text)@ + two_digits(number as int),
        forall|i: int| 0 <= i < final(text)@.len() ==> final(text)@[i] < 0x80,
{
    if number < 10 {
        text.push(0x30);
    }
    let digits = render_digits(number as u64, 10);
    proof {
        lemma_render_is_digits(number as int, 10);
    }
    let ghost before = text@;
    let mut at: usize = 0;
    while at < digits.len()
        invariant
            at <= digits.len(),
            text@ == before + digits@.take(at as int),
            forall|i: int| 0 <= i < digits@.len() ==> digits@[i] < 0x80,
            forall|i: int| 0 <= i < before.len() ==> before[i] < 0x80,
        decreases digits.len() - at,
    {
        text.push(digits[at]);
        proof {
            assert(digits@.take(at + 1) =~= digits@.take(at as int).push(digits@[at as int]));
            assert(text@ =~= before + digits@.take(at + 1));
        }
        at += 1;
    }
    proof {
        assert(digits@.take(digits.len() as int) =~= digits@);
        assert(text@ =~= old(text)@ + two_digits(number as int));
    }
}

/// The text `[+-]HHMM` for an offset in seconds.
pub fn offset_hhmm_from_seconds(seconds: i32) -> (text: String)
    requires
        seconds != i32::MIN,
    ensures
        encode_utf8(text@) == hhmm(seconds as int),
{
    let flag: u8 = if seconds < 0 {
        0x2d
    } else {
        0x2b
    };
    let magnitude: i32 = if seconds < 0 {
        -seconds
    } else {
        seconds
    };
    let minutes = magnitude / 60;
    let offset_hours = minutes / 60;
    let offset_minutes = minutes - (offset_hours * 60);
    let mut text: Vec<u8> = Vec::new();
    text.push(flag);
    push_two_digits(&mut text, offset_hours as u32);
    push_two_digits(&mut text, offset_minutes as u32);
    proof {
        crate::encoding::lemma_ascii_is_utf8(text@);
        assert(text@ =~= hhmm(seconds as int));
    }
    string_from_utf8(text)
}

/// What an offset is, to a contract.
pub enum OffsetModel {
    /// UTC itself.
    Utc,
    /// A fixed offset of so many seconds, under a designation. A fixed offset
    /// of zero is not UTC.
    Fixed { ut_offset: int, designation: Seq<u8> },
    /// The offset of a time zone.
    Tz(TimeZoneRef<'static>),
}

#[derive(Debug, Copy, Clone, PartialEq, Eq)]
enum OffsetType {
    Utc,
    /// The local time type of the offset, made from the seconds kept beside
    /// it and the designation `[+-]HHMM` of those seconds.
    Fixed(LocalTimeType, i32),
    Tz(TimeZoneRef<'static>),
}

/// An offset from UTC.
#[derive(Debug, Copy, Clone, PartialEq, Eq)]
pub struct Offset {
    inner: OffsetType,
}

impl View for Offset {
    type V = OffsetModel;

    closed spec fn view(&self) -> OffsetModel {
        match self.inner {
            OffsetType::Utc => OffsetModel::Utc,
            OffsetType::Fixed(_, seconds) => OffsetModel::Fixed {
                ut_offset: seconds as int,
                designation: hhmm(seconds as int),
            },
            OffsetType::Tz(zone) => OffsetModel::Tz(zone),
        }
    }
}

/// The offset of a military time zone letter, in seconds: `A` to `I` are
/// one to nine hours east, `K` to `M` ten to twelve, `N` to `Y` one to
/// twelve hours west.
pub open spec fn letter_seconds(letter: u8) -> Option<int> {
    if 0x41 <= letter <= 0x49 {
        Some((letter - 0x40) * 3600)
    } else if 0x4b <= letter <= 0x4d {
        Some((letter - 0x4b + 10) * 3600)
    } else if 0x4e <= letter <= 0x59 {
        Some(-(letter - 0x4d) * 3600)
    } else {
        None
    }
}

/// True for a decimal digit.
pub open spec fn is_digit(byte: u8) -> bool {
    0x30 <= byte <= 0x39
}

/// The sign, the hours and the minutes that a text of the shape
/// `[+-]HH[:]MM` writes; nothing for a text of another shape.
pub open spec fn hh_mm(input: Seq<u8>) -> Option<(int, int, int)> {
    let colon = input.len() == 6 && input[3] == 0x3a;
    let minute_at = if colon {
        4int
    } else {
        3int
    };
    if (input.len() == 5 || colon) && (input[0] == 0x2b || input[0] == 0x2d) && is_digit(input[1])
        && is_digit(input[2]) && is_digit(input[minute_at]) && is_digit(input[minute_at + 1]) {
        Some(
            (
                if input[0] == 0x2b {
                    1int
                } else {
                    -1int
                },
                (input[1] - 0x30) * 10 + (input[2] - 0x30),
                (input[minute_at] - 0x30) * 10 + (input[minute_at + 1] - 0x30),
            ),
        )
    } else {
        None
    }
}

/// The offset that a text names: `Z` and `UTC` are UTC, a military letter
/// is its hours, and `[+-]HH[:]MM` is what it says, up to `23:59`. The text
/// of another shape is no offset, and one of that shape beyond `23:59` is
/// out of range.
pub open spec fn parse_offset(input: Seq<u8>) -> Result<Option<int>, TimeError> {
    if input == seq![0x5au8] || input == seq![0x55u8, 0x54u8, 0x43u8] {
        Ok(None)
    } else if input.len() == 1 && letter_seconds(input[0]) is Some {
        Ok(Some(letter_seconds(input[0]).unwrap()))
    } else {
        match hh_mm(input) {
            Some((sign, hours, minutes)) => if hours <= 23 && minutes <= 59 {
                Ok(Some(sign * (hours * 3600 + minutes * 60)))
            } else {
                Err(TimeError::TzOutOfRangeError(TzOutOfRangeError))
            },
            None => Err(TimeError::TzStringError(TzStringError)),
        }
    }
}

/// True when `offset` is what `parsed` describes: UTC, or the fixed offset
/// of so many seconds under the designation `[+-]HHMM`.
pub open spec fn is_parsed(parsed: Option<int>, offset: OffsetModel) -> bool {
    match parsed {
        None => offset is Utc,
        Some(seconds) => offset == (OffsetModel::Fixed {
            ut_offset: seconds,
            designation: hhmm(seconds),
        }),
    }
}

impl Offset {
    /// The offset of UTC.
    pub fn utc() -> (offset: Offset)
        ensures
            offset@ is Utc,
    {
        Offset { inner: OffsetType::Utc }
    }

    /// The fixed offset of `offset` seconds from UTC, which has to be less
    /// than a day.
    pub fn fixed(offset: i32) -> (made: Result<Offset, TimeError>)
        ensures
            MIN_OFFSET_SECONDS <= offset <= MAX_OFFSET_SECONDS ==> made is Ok && made->Ok_0@ == (
            OffsetModel::Fixed { ut_offset: offset as int, designation: hhmm(offset as int) }),
            !(MIN_OFFSET_SECONDS <= offset <= MAX_OFFSET_SECONDS) ==> made is Err && made->Err_0
                == TimeError::TzOutOfRangeError(TzOutOfRangeError),
    {
        if !(MIN_OFFSET_SECONDS <= offset && offset <= MAX_OFFSET_SECONDS) {
            return Err(TimeError::TzOutOfRangeError(TzOutOfRangeError::new()));
        }
        let offset_name = offset_hhmm_from_seconds(offset);
        proof {
            lemma_hhmm_is_designation(offset as int);
        }
        match local_time_type(offset, offset_name.as_str().as_bytes()) {
            Some(local) => Ok(Offset { inner: OffsetType::Fixed(local, offset) }),
            None => Err(TimeError::Unknown),
        }
    }

    /// The offset of the time zone of this machine, as it was found: the
    /// offset of the zone, or that of GMT where none was found. GMT has a
    /// designation, so that this is never the offset of UTC.
    pub fn local_or_gmt(found: Option<TimeZoneRef<'static>>) -> (offset: Offset)
        ensures
            offset@ is Tz,
            found matches Some(zone) ==> offset@ == OffsetModel::Tz(zone),
    {
        match found {
            Some(zone) => Offset::tz(zone),
            None => Offset::tz(gmt_time_zone()),
        }
    }

    /// The offset of a time zone.
    pub fn tz(zone: TimeZoneRef<'static>) -> (offset: Offset)
        ensures
            offset@ == OffsetModel::Tz(zone),
    {
        Offset { inner: OffsetType::Tz(zone) }
    }

    /// Tells whether this is the offset of UTC. A fixed offset of zero is
    /// not.
    pub fn is_utc(&self) -> (utc: bool)
        ensures
            utc == (self@ is Utc),
    {
        match self.inner {
            OffsetType::Utc => true,
            _ => false,
        }
    }

    /// The time zone with which times are made and read at this offset.
    pub fn time_zone_ref(&self) -> (zone: TimeZoneRef<'_>)
        ensures
            self@ matches OffsetModel::Tz(own) ==> zone == own,
    {
        match &self.inner {
            OffsetType::Utc => utc_time_zone(),
            OffsetType::Fixed(local, _) => match fixed_time_zone(local) {
                Some(zone) => zone,
                None => gmt_time_zone(),
            },
            OffsetType::Tz(zone) => *zone,
        }
    }

    /// The offset that `input` names.
    pub fn parse(input: &[u8]) -> (offset: Result<Offset, TimeError>)
        ensures
            match offset {
                Ok(made) => parse_offset(input@) is Ok && is_parsed(
                    parse_offset(input@)->Ok_0,
                    made@,
                ),
                Err(error) => parse_offset(input@) == Err::<Option<int>, TimeError>(error),
            },
    {
        let len = input.len();
        if len == 1 {
            let letter = input[0];
            assert(input@ =~= seq![letter]);
            if letter == 0x5a {
                return Ok(Offset::utc());
            }
            if 0x41 <= letter && letter <= 0x49 {
                return Offset::fixed((letter - 0x40) as i32 * SECONDS_IN_HOUR);
            }
            if 0x4b <= letter && letter <= 0x4d {
                return Offset::fixed((letter - 0x4b + 10) as i32 * SECONDS_IN_HOUR);
            }
            if 0x4e <= letter && letter <= 0x59 {
                return Offset::fixed(-((letter - 0x4d) as i32) * SECONDS_IN_HOUR);
            }
            return Err(TimeError::TzStringError(TzStringError::new()));
        }
        if len == 3 && input[0] == 0x55 && input[1] == 0x54 && input[2] == 0x43 {
            assert(input@ =~= seq![0x55u8, 0x54u8, 0x43u8]);
            return Ok(Offset::utc());
        }
        let colon = len == 6 && input[3] == 0x3a;
        if !(len == 5 || colon) {
            return Err(TimeError::TzStringError(TzStringError::new()));
        }
        let minute_at: usize = if colon {
            4
        } else {
            3
        };
        let sign: i32 = if input[0] == 0x2b {
            1
        } else if input[0] == 0x2d {
            -1
        } else {
            return Err(TimeError::TzStringError(TzStringError::new()));
        };
        if !(is_ascii_digit(input[1]) && is_ascii_digit(input[2]) && is_ascii_digit(
            input[minute_at],
        ) && is_ascii_digit(input[minute_at + 1])) {
            return Err(TimeError::TzStringError(TzStringError::new()));
        }
        let hours: i32 = (input[1] - 0x30) as i32 * 10 + (input[2] - 0x30) as i32;
        let minutes: i32 = (input[minute_at] - 0x30) as i32 * 10 + (input[minute_at + 1]
            - 0x30) as i32;
        if hours <= 23 && minutes <= 59 {
            let offset_seconds: i32 = sign * ((hours * SECONDS_IN_HOUR) + (minutes
                * SECONDS_IN_MINUTE));
            Offset::fixed(offset_seconds)
        } else {
            Err(TimeError::TzOutOfRangeError(TzOutOfRangeError::new()))
        }
    }
}

/// True when `offset` is the outcome of reading the bytes `input` as the
/// name of an offset: the offset that they name, or the error that says why
/// they name none.
pub open spec fn is_offset_of(input: Seq<u8>, offset: Result<Offset, TimeError>) -> bool {
    match offset {
        Ok(made) => parse_offset(input) is Ok && is_parsed(parse_offset(input)->Ok_0, made@),
        Err(error) => parse_offset(input) == Err::<Option<int>, TimeError>(error),
    }
}

impl TryFrom<&str> for Offset {
    type Error = TimeError;

    /// The offset that the text `input` names, read from the bytes of its
    /// UTF-8 encoding as `Offset::parse` reads them.
    fn try_from(input: &str) -> (offset: Result<Offset, TimeError>)
        ensures
            is_offset_of(encode_utf8(input@), offset),
    {
        Offset::parse(input.as_bytes())
    }
}

impl vstd::std_specs::convert::TryFromSpecImpl<&str> for Offset {
    open spec fn obeys_try_from_spec() -> bool {
        false
    }

    open spec fn try_from_spec(input: &str) -> Result<Offset, TimeError> {
        Err(TimeError::Unknown)
    }
}

impl TryFrom<&[u8]> for Offset {
    type Error = TimeError;

    /// The offset that the bytes `input` name, as `Offset::parse` reads
    /// them. Bytes that are no UTF-8 text name no offset.
    fn try_from(input: &[u8]) -> (offset: Result<Offset, TimeError>)
        ensures
            is_offset_of(input@, offset),
    {
        Offset::parse(input)
    }
}

impl vstd::std_specs::convert::TryFromSpecImpl<&[u8]> for Offset {
    open spec fn obeys_try_from_spec() -> bool {
        false
    }

    open spec fn try_from_spec(input: &[u8]) -> Result<Offset, TimeError> {
        Err(TimeError::Unknown)
    }
}

impl TryFrom<String> for Offset {
    type Error = TimeError;

    /// The offset that the text `input` names, read from the bytes of its
    /// UTF-8 encoding as `Offset::parse` reads them.
    fn try_from(input: String) -> (offset: Result<Offset, TimeError>)
        ensures
            is_offset_of(encode_utf8(input@), offset),
    {
        Offset::parse(input.as_str().as_bytes())
    }
}

impl vstd::std_specs::convert::TryFromSpecImpl<String> for Offset {
    open spec fn obeys_try_from_spec() -> bool {
        false
    }

    open spec fn try_from_spec(input: String) -> Result<Offset, TimeError> {
        Err(TimeError::Unknown)
    }
}

impl TryFrom<i32> for Offset {
    type Error = TimeError;

    /// The fixed offset of `seconds` seconds from UTC, which has to be less
    /// than a day, as `Offset::fixed` makes it.
    fn try_from(seconds: i32) -> (offset: Result<Offset, TimeError>)
        ensures
            MIN_OFFSET_SECONDS <= seconds <= MAX_OFFSET_SECONDS ==> offset is Ok && offset->Ok_0@
                == (OffsetModel::Fixed {
                ut_offset: seconds as int,
                designation: hhmm(seconds as int),
            }),
            !(MIN_OFFSET_SECONDS <= seconds <= MAX_OFFSET_SECONDS) ==> offset is Err
                && offset->Err_0 == TimeError::TzOutOfRangeError(TzOutOfRangeError),
    {
        Offset::fixed(seconds)
    }
}

impl vstd::std_specs::convert::TryFromSpecImpl<i32> for Offset {
    open spec fn obeys_try_from_spec() -> bool {
        false
    }

    open spec fn try_from_spec(seconds: i32) -> Result<Offset, TimeError> {
        Err(TimeError::Unknown)
    }
}

impl From<TimeZoneRef<'static>> for Offset {
    /// The offset of a time zone.
    fn from(zone: TimeZoneRef<'static>) -> (offset: Offset) {
        Offset::tz(zone)
    }
}

impl vstd::std_specs::convert::FromSpecImpl<TimeZoneRef<'static>> for Offset {
    open spec fn obeys_from_spec() -> bool {
        false
    }

    open spec fn from_spec(zone: TimeZoneRef<'static>) -> Offset {
        arbitrary()
    }
}

/// Tells whether a byte is a decimal digit.
fn is_ascii_digit(byte: u8) -> (digit: bool)
    ensures
        digit == is_digit(byte),
{
    0x30 <= byte && byte <= 0x39
}

} // verus!
