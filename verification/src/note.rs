//! The preamble of a note: its title and the moment it was created, written
//! as a small TOML document between two fence lines at the top of the file.

use toml::value::{Date, Datetime, Offset, Time};
use toml::{Table, Value};
use vstd::prelude::*;
use vstd::slice::slice_subrange;
use vstd::utf8::{
    decode_utf8, encode_utf8, encode_utf8_decode_utf8, encode_utf8_valid_utf8, valid_utf8,
};

use crate::failure::{IoFailure, IoFailureKind};
use crate::fence::{
    byte_line_end, fence, fence_line, fence_line_bytes, fenced_block, find_line_end,
    has_fence_line, is_fence, lemma_blocks_agree, lemma_byte_line_end_bounds,
    lemma_encoded_subrange, lemma_fence_bytes, lemma_fence_closes_block, lemma_line_ends_agree,
    line_end, scanned_block, BlockScan,
};
use crate::text::text_of_bytes;
use crate::timestamp::{date_text, is_utc_offset, CalendarDate, Timestamp, TimestampView};

verus! {

/// `text` with every character turned to lower case, by the rules of Unicode.
pub uninterp spec fn lowercased(text: Seq<char>) -> Seq<char>;

/// Calls `str::to_lowercase`. Claimed: the result depends on the text alone.
#[verifier::external_body]
fn to_lowercase(text: &str) -> (lowered: String)
    ensures
        lowered@ == lowercased(text@),
{
    text.to_lowercase()
}

/// Whether `ch` is an ASCII letter or digit.
pub open spec fn is_ascii_alphanumeric(ch: char) -> bool {
    ('0' <= ch <= '9') || ('a' <= ch <= 'z') || ('A' <= ch <= 'Z')
}

/// Whether a file name stem keeps `ch`: every character outside ASCII stays,
/// and of ASCII the letters and digits.
pub open spec fn is_kept(ch: char) -> bool {
    ch as u32 >= 128 || is_ascii_alphanumeric(ch)
}

/// `text` without its ASCII punctuation, spaces and control characters.
pub open spec fn without_specials(text: Seq<char>) -> Seq<char>
    decreases text.len(),
{
    if text.len() == 0 {
        Seq::empty()
    } else if is_kept(text.last()) {
        without_specials(text.drop_last()).push(text.last())
    } else {
        without_specials(text.drop_last())
    }
}

/// The stem that a lower-case title gives: a hyphen for every space, and
/// every other character kept or dropped as `is_kept` says.
pub open spec fn stem_of_lowered(text: Seq<char>) -> Seq<char>
    decreases text.len(),
{
    if text.len() == 0 {
        Seq::empty()
    } else if text.last() == ' ' {
        stem_of_lowered(text.drop_last()).push('-')
    } else if is_kept(text.last()) {
        stem_of_lowered(text.drop_last()).push(text.last())
    } else {
        stem_of_lowered(text.drop_last())
    }
}

fn keeps(ch: char) -> (kept: bool)
    ensures
        kept == is_kept(ch),
{
    ch as u32 >= 128 || ('0' <= ch && ch <= '9') || ('a' <= ch && ch <= 'z') || ('A' <= ch && ch
        <= 'Z')
}

/// Drops the ASCII characters that are neither letters nor digits.
pub fn remove_specials(text: &str) -> (cleaned: String)
    ensures
        cleaned@ == without_specials(text@),
{
    let mut cleaned = String::new();
    for ch in it: text.chars()
        invariant
            it.seq() == text@,
            cleaned@ == without_specials(text@.take(it.index() as int)),
    {
        proof {
            let seen = text@.take(it.index() + 1);
            assert(seen.drop_last() =~= text@.take(it.index() as int));
            assert(seen.last() == ch);
        }
        if keeps(ch) {
            cleaned.push(ch);
        }
    }
    proof {
        assert(text@.take(text@.len() as int) =~= text@);
    }
    cleaned
}

/// The file name stem that a title in lower case gives: its words joined by
/// hyphens, without punctuation.
pub fn filename_stem_for_lowered(lowered: &str) -> (stem: String)
    ensures
        stem@ == stem_of_lowered(lowered@),
{
    let mut stem = String::new();
    for ch in it: lowered.chars()
        invariant
            it.seq() == lowered@,
            stem@ == stem_of_lowered(lowered@.take(it.index() as int)),
    {
        proof {
            let seen = lowered@.take(it.index() + 1);
            assert(seen.drop_last() =~= lowered@.take(it.index() as int));
            assert(seen.last() == ch);
        }
        if ch == ' ' {
            stem.push('-');
        } else if keeps(ch) {
            stem.push(ch);
        }
    }
    proof {
        assert(lowered@.take(lowered@.len() as int) =~= lowered@);
    }
    stem
}

/// The file name stem for a note with this title: the title in lower case,
/// its words joined by hyphens, without punctuation.
pub fn filename_stem_for_title(title: &str) -> (stem: String)
    ensures
        stem@ == stem_of_lowered(lowercased(title@)),
{
    let lowered = to_lowercase(title);
    filename_stem_for_lowered(lowered.as_str())
}

/// The file name stem for the daily note of `date`: the date as it is
/// written, `2015-10-21`.
pub fn filename_stem_for_date(date: CalendarDate) -> (stem: String)
    ensures
        stem@ == date_text(date@.year, date@.month, date@.day),
        date@.is_valid(),
{
    date.to_text()
}

/// The stem of a title is its words, each without its special characters,
/// joined by hyphens: a title without spaces gives its one word, and a space
/// between two parts gives a hyphen between their stems.
pub proof fn lemma_stem_joins_words(left: Seq<char>, right: Seq<char>)
    ensures
        stem_of_lowered(left + seq![' '] + right) == stem_of_lowered(left) + seq!['-']
            + stem_of_lowered(right),
        !right.contains(' ') ==> stem_of_lowered(right) == without_specials(right),
    decreases right.len(),
{
    if right.len() == 0 {
        let joined = left + seq![' '] + right;
        assert(joined.drop_last() =~= left);
        assert(stem_of_lowered(joined) =~= stem_of_lowered(left) + seq!['-'] + stem_of_lowered(
            right,
        ));
    } else {
        lemma_stem_joins_words(left, right.drop_last());
        let joined = left + seq![' '] + right;
        assert(joined.drop_last() =~= left + seq![' '] + right.drop_last());
        assert(joined.last() == right.last());
        assert(stem_of_lowered(joined) =~= stem_of_lowered(left) + seq!['-'] + stem_of_lowered(
            right,
        ));
        if !right.contains(' ') {
            assert(right[right.len() - 1] != ' ');
            assert forall|i: int| 0 <= i < right.drop_last().len() implies right.drop_last()[i]
                != ' ' by {
                assert(right[i] != ' ');
            }
            assert(!right.drop_last().contains(' '));
        }
    }
}

/// How a TOML datetime gives its offset from UTC.
#[derive(Clone, Copy, Debug, PartialEq, Eq)]
pub enum OffsetPart {
    /// Written as `Z`: no offset.
    Z,
    /// Written as hours and minutes; held as minutes.
    Custom { minutes: i16 },
}

/// The three parts of a TOML datetime, each of which a document may leave
/// out: the date as year, month and day; the time as hour, minute, second and
/// nanosecond; and the offset.
#[derive(Clone, Copy, Debug, PartialEq, Eq)]
pub struct DatetimeParts {
    pub date: Option<(u16, u8, u8)>,
    pub time: Option<(u8, u8, u8, u32)>,
    pub offset: Option<OffsetPart>,
}

/// What a TOML document holds under a key, as far as a preamble cares.
#[derive(Clone, Debug, PartialEq, Eq)]
pub enum FieldValue {
    Text(String),
    Moment(DatetimeParts),
    Other,
}

/// A document's value as a value of specifications.
pub enum FieldView {
    Text(Seq<char>),
    Moment(DatetimeParts),
    Other,
}

impl View for FieldValue {
    type V = FieldView;

    open spec fn view(&self) -> FieldView {
        match self {
            FieldValue::Text(text) => FieldView::Text(text@),
            FieldValue::Moment(parts) => FieldView::Moment(*parts),
            FieldValue::Other => FieldView::Other,
        }
    }
}

/// What the TOML document `text` holds at its top level under each of two
/// keys, `None` where it has no such key; and `None` for both where `text` is
/// no TOML document.
pub uninterp spec fn document_entries_of(text: Seq<char>, first: Seq<char>, second: Seq<char>) -> Option<
    (Option<FieldView>, Option<FieldView>),
>;

/// The TOML document with the string `title` under `title_key` and the
/// datetime `moment` under `moment_key`, in that order, as the pretty printer
/// writes it; `None` where it refuses.
pub uninterp spec fn rendered_document(
    title_key: Seq<char>,
    title: Seq<char>,
    moment_key: Seq<char>,
    moment: DatetimeParts,
) -> Option<Seq<char>>;

/// `toml::de::Error`: why the TOML parser refused a text. Carried through
/// to the caller, never looked into.
#[verifier::external_type_specification]
#[verifier::external_body]
pub struct ExTomlDeError(toml::de::Error);

/// `toml::ser::Error`: why the TOML printer refused a document. Carried
/// through to the caller, never looked into.
#[verifier::external_type_specification]
#[verifier::external_body]
pub struct ExTomlSerError(toml::ser::Error);

/// Parses `text` with `toml::from_str` into a `toml::Table` and looks the two
/// keys up with `Map::get`. A string and a datetime come back with what they
/// hold, any other value as `Other`. Claimed: the answer depends on the three
/// texts alone.
#[verifier::external_body]
fn document_entries(text: &str, first: &str, second: &str) -> (entries: Result<
    (Option<FieldValue>, Option<FieldValue>),
    toml::de::Error,
>)
    ensures
        match entries {
            Ok(found) => document_entries_of(text@, first@, second@) == Some(
                (
                    match found.0 {
                        Some(value) => Some(value@),
                        None => None,
                    },
                    match found.1 {
                        Some(value) => Some(value@),
                        None => None,
                    },
                ),
            ),
            Err(_) => document_entries_of(text@, first@, second@) is None,
        },
{
    let table = toml::from_str::<Table>(text)?;
    let entry = |key: &str| table.get(key).map(|value| match value {
        Value::String(found) => FieldValue::Text(found.clone()),
        Value::Datetime(found) => FieldValue::Moment(DatetimeParts {
            date: found.date.map(|date| (date.year, date.month, date.day)),
            time: found.time.map(|time| (time.hour, time.minute, time.second, time.nanosecond)),
            offset: found.offset.map(|offset| match offset {
                Offset::Z => OffsetPart::Z,
                Offset::Custom { minutes } => OffsetPart::Custom { minutes },
            }),
        }),
        _ => FieldValue::Other,
    });
    Ok((entry(first), entry(second)))
}

/// Builds a `toml::Table` of two entries with `Map::insert` and writes it with
/// `toml::to_string_pretty`. Claimed: the answer depends on the four values
/// alone. The offset's minutes must not be the least 16-bit number, which the
/// printer cannot negate.
#[verifier::external_body]
fn render_document(title_key: &str, title: &str, moment_key: &str, moment: DatetimeParts) -> (text:
    Result<String, toml::ser::Error>)
    requires
        moment.offset matches Some(OffsetPart::Custom { minutes }) ==> minutes > i16::MIN,
    ensures
        match text {
            Ok(text) => rendered_document(title_key@, title@, moment_key@, moment) == Some(text@),
            Err(_) => rendered_document(title_key@, title@, moment_key@, moment) is None,
        },
{
    let mut table = Table::new();
    table.insert(title_key.to_owned(), Value::String(title.to_owned()));
    let found = Datetime {
        date: moment.date.map(|(year, month, day)| Date { year, month, day }),
        time: moment.time.map(|(hour, minute, second, nanosecond)| Time { hour, minute, second, nanosecond }),
        offset: moment.offset.map(|offset| match offset {
            OffsetPart::Z => Offset::Z,
            OffsetPart::Custom { minutes } => Offset::Custom { minutes },
        }),
    };
    table.insert(moment_key.to_owned(), Value::Datetime(found));
    toml::to_string_pretty(&table)
}

/// Why a preamble cannot be written.
#[derive(Debug, PartialEq, Eq)]
pub enum SerializeError {
    /// The year does not fit 16 bits without a sign.
    Year,
    /// The TOML printer refused the document.
    Document(toml::ser::Error),
}

/// Rust's division of a number by 60: the quotient rounded towards zero.
pub open spec fn minutes_of_seconds(seconds: int) -> int {
    if seconds >= 0 {
        seconds / 60
    } else {
        -((-seconds) / 60)
    }
}

/// The TOML datetime that stands for a moment: all three parts, the offset
/// in whole minutes. The year has to fit 16 bits; every other number of a
/// moment fits its field.
pub open spec fn parts_of_moment(moment: TimestampView) -> Result<DatetimeParts, SerializeError> {
    if !(0 <= moment.year <= u16::MAX) {
        Err(SerializeError::Year)
    } else {
        Ok(
            DatetimeParts {
                date: Some((moment.year as u16, moment.month as u8, moment.day as u8)),
                time: Some(
                    (
                        moment.hour as u8,
                        moment.minute as u8,
                        moment.second as u8,
                        moment.nanosecond as u32,
                    ),
                ),
                offset: Some(
                    OffsetPart::Custom {
                        minutes: minutes_of_seconds(moment.offset_seconds) as i16,
                    },
                ),
            },
        )
    }
}

/// Turns a moment into the TOML datetime that stands for it, checking that
/// every number fits its field.
pub fn toml_datetime(moment: &Timestamp) -> (parts: Result<DatetimeParts, SerializeError>)
    ensures
        parts == parts_of_moment(moment@),
        moment@.is_valid(),
{
    let seconds: i32 = moment.offset_seconds();
    let minutes: i32 = if seconds >= 0 {
        seconds / 60
    } else {
        -((-seconds) / 60)
    };
    let year: i32 = moment.year();
    if year < 0 || year > 65535 {
        return Err(SerializeError::Year);
    }
    Ok(
        DatetimeParts {
            date: Some((year as u16, moment.month() as u8, moment.day() as u8)),
            time: Some(
                (
                    moment.hour() as u8,
                    moment.minute() as u8,
                    moment.second() as u8,
                    moment.nanosecond(),
                ),
            ),
            offset: Some(OffsetPart::Custom { minutes: minutes as i16 }),
        },
    )
}

/// What is wrong with the TOML document of a preamble.
#[derive(Clone, Copy, Debug, PartialEq, Eq)]
pub enum DeserializeFlaw {
    /// It is no TOML document.
    Syntax,
    MissingTitle,
    TitleNotText,
    MissingCreatedAt,
    CreatedAtNotDatetime,
    MissingDate,
    MissingTime,
    MissingOffset,
    /// The offset is a day or more.
    OffsetOutOfRange,
    /// The date is no day of the calendar, or the time no time of day.
    Unresolvable,
}

/// The moment that a TOML datetime stands for. It needs all three parts, an
/// offset of less than a day, and a date and time that exist. `Z` is the
/// offset 0.
pub open spec fn moment_of_parts(parts: DatetimeParts) -> Result<TimestampView, DeserializeFlaw> {
    match (parts.date, parts.time, parts.offset) {
        (None, _, _) => Err(DeserializeFlaw::MissingDate),
        (Some(_), None, _) => Err(DeserializeFlaw::MissingTime),
        (Some(_), Some(_), None) => Err(DeserializeFlaw::MissingOffset),
        (Some(date), Some(time), Some(offset)) => {
            let minutes: int = match offset {
                OffsetPart::Z => 0,
                OffsetPart::Custom { minutes } => minutes as int,
            };
            let moment = TimestampView {
                year: date.0 as int,
                month: date.1 as int,
                day: date.2 as int,
                hour: time.0 as int,
                minute: time.1 as int,
                second: time.2 as int,
                nanosecond: time.3 as int,
                offset_seconds: minutes * 60,
            };
            if !is_utc_offset(moment.offset_seconds) {
                Err(DeserializeFlaw::OffsetOutOfRange)
            } else if !moment.is_valid() {
                Err(DeserializeFlaw::Unresolvable)
            } else {
                Ok(moment)
            }
        },
    }
}

/// Turns a TOML datetime into the moment that it stands for.
pub fn deserialize_datetime(parts: DatetimeParts) -> (moment: Result<Timestamp, DeserializeFlaw>)
    ensures
        match moment {
            Ok(moment) => moment_of_parts(parts) == Ok::<TimestampView, DeserializeFlaw>(moment@),
            Err(flaw) => moment_of_parts(parts) == Err::<TimestampView, DeserializeFlaw>(flaw),
        },
{
    let date = match parts.date {
        Some(date) => date,
        None => return Err(DeserializeFlaw::MissingDate),
    };
    let time = match parts.time {
        Some(time) => time,
        None => return Err(DeserializeFlaw::MissingTime),
    };
    let offset = match parts.offset {
        Some(offset) => offset,
        None => return Err(DeserializeFlaw::MissingOffset),
    };
    let offset_minutes: i32 = match offset {
        OffsetPart::Z => 0,
        OffsetPart::Custom { minutes } => minutes as i32,
    };
    let offset_seconds: i32 = offset_minutes * 60;
    if offset_seconds <= -86_400 || offset_seconds >= 86_400 {
        return Err(DeserializeFlaw::OffsetOutOfRange);
    }
    match Timestamp::new(
        date.0 as i32,
        date.1 as u32,
        date.2 as u32,
        time.0 as u32,
        time.1 as u32,
        time.2 as u32,
        time.3,
        offset_seconds,
    ) {
        Some(moment) => Ok(moment),
        None => Err(DeserializeFlaw::Unresolvable),
    }
}

/// A moment whose offset is a whole number of minutes comes back unchanged
/// from the TOML datetime that stands for it.
pub proof fn lemma_moment_survives_parts(moment: TimestampView)
    requires
        moment.is_valid(),
        parts_of_moment(moment) is Ok,
        moment.offset_seconds % 60 == 0,
    ensures
        moment_of_parts(parts_of_moment(moment)->Ok_0) == Ok::<TimestampView, DeserializeFlaw>(
            moment,
        ),
{
}

/// The key of the title in the TOML document of a preamble.
pub const TITLE_KEY: &'static str = "title";

/// The key of the moment of creation in the TOML document of a preamble.
pub const CREATED_AT_KEY: &'static str = "created_at";

/// What a note says about itself in its first lines.
#[derive(Clone, Debug, PartialEq, Eq)]
pub struct Preamble {
    pub title: String,
    pub created_at: Timestamp,
}

/// A preamble as a value of specifications.
pub struct PreambleView {
    pub title: Seq<char>,
    pub created_at: TimestampView,
}

impl View for Preamble {
    type V = PreambleView;

    open spec fn view(&self) -> PreambleView {
        PreambleView { title: self.title@, created_at: self.created_at@ }
    }
}

/// Whether `ch` is white space by the rules of Unicode: one of the code
/// points that have the property `White_Space`.
pub open spec fn is_white_space(ch: char) -> bool {
    ||| '\u{9}' <= ch <= '\u{d}'
    ||| ch == ' '
    ||| ch == '\u{85}'
    ||| ch == '\u{a0}'
    ||| ch == '\u{1680}'
    ||| '\u{2000}' <= ch <= '\u{200a}'
    ||| ch == '\u{2028}'
    ||| ch == '\u{2029}'
    ||| ch == '\u{202f}'
    ||| ch == '\u{205f}'
    ||| ch == '\u{3000}'
}

/// How many characters of `text` are left when the white space at its end is
/// taken off.
pub open spec fn end_trimmed_length(text: Seq<char>) -> nat
    decreases text.len(),
{
    if text.len() == 0 {
        0
    } else if is_white_space(text.last()) {
        end_trimmed_length(text.drop_last())
    } else {
        text.len()
    }
}

/// `text` without the white space at its end.
pub open spec fn end_trimmed(text: Seq<char>) -> Seq<char> {
    text.take(end_trimmed_length(text) as int)
}

/// Calls `str::trim_end`, which takes the trailing white space off.
/// Claimed: white space is what has the Unicode property `White_Space`, and
/// what is left is the text up to its last character that is none.
#[verifier::external_body]
fn trim_end(text: &str) -> (trimmed: &str)
    ensures
        trimmed@ == end_trimmed(text@),
{
    text.trim_end()
}

/// A TOML document between two fences: the form in which a preamble stands at
/// the top of a note. The white space at the document's end is taken off,
/// and the closing fence has no line break.
pub open spec fn framed(document: Seq<char>) -> Seq<char> {
    fence_line() + end_trimmed(document) + seq!['\n'] + fence()
}

impl Preamble {
    /// A preamble of this title and moment.
    #[must_use]
    pub fn new(title: String, created_at: Timestamp) -> (preamble: Preamble)
        ensures
            preamble.title == title,
            preamble.created_at == created_at,
    {
        Preamble { title, created_at }
    }

    /// Writes the preamble as it stands in a note:
    ///
    /// ```text
    /// ---
    /// title = "my cool note"
    /// created_at = 2015-10-21T07:28:00-07:00
    /// ---
    /// ```
    ///
    /// The moment is written with its offset from UTC in whole minutes. It
    /// cannot be written where the year does not fit 16 bits.
    pub fn serialize(&self) -> (text: Result<String, SerializeError>)
        ensures
            match text {
                Ok(text) => {
                    &&& parts_of_moment(self@.created_at) matches Ok(parts)
                    &&& rendered_document(
                        TITLE_KEY@,
                        self@.title,
                        CREATED_AT_KEY@,
                        parts,
                    ) matches Some(document)
                    &&& text@ == framed(document)
                },
                Err(SerializeError::Year) => parts_of_moment(self@.created_at) == Err::<
                    DatetimeParts,
                    SerializeError,
                >(SerializeError::Year),
                Err(SerializeError::Document(_)) => {
                    &&& parts_of_moment(self@.created_at) matches Ok(parts)
                    &&& rendered_document(
                        TITLE_KEY@,
                        self@.title,
                        CREATED_AT_KEY@,
                        parts,
                    ) is None
                },
            },
    {
        let parts = match toml_datetime(&self.created_at) {
            Ok(parts) => parts,
            Err(flaw) => return Err(flaw),
        };
        let document = match render_document(
            TITLE_KEY,
            self.title.as_str(),
            CREATED_AT_KEY,
            parts,
        ) {
            Ok(document) => document,
            Err(refusal) => return Err(SerializeError::Document(refusal)),
        };
        let mut text = String::from_str("---\n");
        text.append(trim_end(document.as_str()));
        text.append("\n---");
        proof {
            reveal_strlit("---\n");
            reveal_strlit("\n---");
            assert("---\n"@ =~= fence_line());
            assert("\n---"@ =~= seq!['\n'] + fence());
            assert(text@ =~= framed(document@));
        }
        Ok(text)
    }
}

/// Why the TOML document of a preamble was not accepted.
#[derive(Debug, PartialEq, Eq)]
pub struct DeserializeError {
    pub flaw: DeserializeFlaw,
    /// What the TOML parser said, where `flaw` is `Syntax`.
    pub syntax: Option<toml::de::Error>,
}

/// Why a note does not start with a preamble.
#[derive(Debug, PartialEq, Eq)]
pub enum InvalidPreambleError {
    /// The opening fence has no closing fence.
    UnterminatedFence,
    /// The first line, given here, is not a fence.
    MalformedFence(String),
    /// The lines between the fences are no preamble.
    DeserializeError(DeserializeError),
    /// A line up to the closing fence could not be read as text.
    IOError(IoFailure),
}

/// The preamble that a TOML document holds: a string under `title` and a
/// datetime under `created_at` that stands for a moment. Other keys are
/// passed over. The title is looked at first.
pub open spec fn preamble_of_document(text: Seq<char>) -> Result<PreambleView, DeserializeFlaw> {
    match document_entries_of(text, TITLE_KEY@, CREATED_AT_KEY@) {
        None => Err(DeserializeFlaw::Syntax),
        Some((None, _)) => Err(DeserializeFlaw::MissingTitle),
        Some((Some(FieldView::Text(title)), None)) => Err(DeserializeFlaw::MissingCreatedAt),
        Some((Some(FieldView::Text(title)), Some(FieldView::Moment(parts)))) => match moment_of_parts(
            parts,
        ) {
            Ok(created_at) => Ok(PreambleView { title, created_at }),
            Err(flaw) => Err(flaw),
        },
        Some((Some(FieldView::Text(title)), Some(_))) => Err(
            DeserializeFlaw::CreatedAtNotDatetime,
        ),
        Some((Some(_), _)) => Err(DeserializeFlaw::TitleNotText),
    }
}

/// Reads the preamble out of the TOML document between the fences.
pub fn deserialize_preamble(document: &str) -> (preamble: Result<Preamble, DeserializeError>)
    ensures
        match preamble {
            Ok(preamble) => preamble_of_document(document@) == Ok::<PreambleView, DeserializeFlaw>(
                preamble@,
            ),
            Err(error) => preamble_of_document(document@) == Err::<PreambleView, DeserializeFlaw>(
                error.flaw,
            ) && (error.syntax is Some <==> error.flaw == DeserializeFlaw::Syntax),
        },
{
    let (title, created_at) = match document_entries(document, TITLE_KEY, CREATED_AT_KEY) {
        Ok(entries) => entries,
        Err(refusal) => return Err(
            DeserializeError { flaw: DeserializeFlaw::Syntax, syntax: Some(refusal) },
        ),
    };
    let title = match title {
        None => return Err(
            DeserializeError { flaw: DeserializeFlaw::MissingTitle, syntax: None },
        ),
        Some(FieldValue::Text(title)) => title,
        Some(_) => return Err(
            DeserializeError { flaw: DeserializeFlaw::TitleNotText, syntax: None },
        ),
    };
    let parts = match created_at {
        None => return Err(
            DeserializeError { flaw: DeserializeFlaw::MissingCreatedAt, syntax: None },
        ),
        Some(FieldValue::Moment(parts)) => parts,
        Some(_) => return Err(
            DeserializeError { flaw: DeserializeFlaw::CreatedAtNotDatetime, syntax: None },
        ),
    };
    match deserialize_datetime(parts) {
        Ok(created_at) => Ok(Preamble { title, created_at }),
        Err(flaw) => Err(DeserializeError { flaw, syntax: None }),
    }
}

/// How the search for a preamble at the top of a note ends.
pub enum Extraction {
    /// The first line, given here, is not a fence.
    Malformed(Seq<char>),
    /// A line up to the closing fence is not UTF-8.
    InvalidText,
    /// No closing fence follows the opening one.
    Unterminated,
    /// The lines between the fences are no preamble.
    Flawed(DeserializeFlaw),
    /// The preamble.
    Found(PreambleView),
}

/// What stands at the top of `text`: the first line has to be a fence with
/// its line break, a closing fence has to follow, and the lines between have
/// to hold a preamble.
pub open spec fn extraction_of(text: Seq<char>) -> Extraction {
    let first_end = line_end(text, 0);
    if text.subrange(0, first_end) != fence_line() {
        Extraction::Malformed(text.subrange(0, first_end))
    } else {
        match fenced_block(text, first_end) {
            None => Extraction::Unterminated,
            Some(block) => match preamble_of_document(block) {
                Ok(preamble) => Extraction::Found(preamble),
                Err(flaw) => Extraction::Flawed(flaw),
            },
        }
    }
}

/// What stands at the top of a note: the first line has to be a fence with
/// its line break, a closing fence has to follow, and the lines between have
/// to hold a preamble.
pub open spec fn extraction_of_bytes(bytes: Seq<u8>) -> Extraction {
    let first_end = byte_line_end(bytes, 0);
    let first = bytes.subrange(0, first_end);
    if !valid_utf8(first) {
        Extraction::InvalidText
    } else if first != fence_line_bytes() {
        Extraction::Malformed(decode_utf8(first))
    } else {
        match scanned_block(bytes, first_end) {
            BlockScan::Unterminated => Extraction::Unterminated,
            BlockScan::InvalidText => Extraction::InvalidText,
            BlockScan::Block(block) => match preamble_of_document(block) {
                Ok(preamble) => Extraction::Found(preamble),
                Err(flaw) => Extraction::Flawed(flaw),
            },
        }
    }
}

/// The failure that stands for a line that is not UTF-8.
pub open spec fn is_invalid_text(failure: IoFailure) -> bool {
    failure.kind == IoFailureKind::Other && failure.message@
        == "stream did not contain valid UTF-8"@
}

fn invalid_text() -> (error: InvalidPreambleError)
    ensures
        error matches InvalidPreambleError::IOError(failure) && is_invalid_text(failure),
{
    InvalidPreambleError::IOError(
        IoFailure {
            kind: IoFailureKind::Other,
            message: String::from_str("stream did not contain valid UTF-8"),
        },
    )
}

/// Makes sure that the note opens with a fence line, and tells where the
/// second line starts.
pub fn ensure_preamble_fence(contents: &[u8]) -> (second: Result<usize, InvalidPreambleError>)
    ensures
        match second {
            Ok(second) => second == byte_line_end(contents@, 0) && second <= contents.len()
                && contents@.subrange(0, second as int) == fence_line_bytes() && valid_utf8(
                contents@.subrange(0, second as int),
            ),
            Err(InvalidPreambleError::MalformedFence(line)) => {
                let first = contents@.subrange(0, byte_line_end(contents@, 0));
                valid_utf8(first) && first != fence_line_bytes() && line@ == decode_utf8(first)
            },
            Err(InvalidPreambleError::IOError(failure)) => is_invalid_text(failure) && !valid_utf8(
                contents@.subrange(0, byte_line_end(contents@, 0)),
            ),
            Err(_) => false,
        },
{
    let end = find_line_end(contents, 0);
    let first = slice_subrange(contents, 0, end);
    match text_of_bytes(first) {
        None => Err(invalid_text()),
        Some(line) => {
            if is_fence(first, true) {
                Ok(end)
            } else {
                Err(InvalidPreambleError::MalformedFence(String::from_str(line)))
            }
        },
    }
}

/// Gathers the lines from `start` up to the closing fence.
pub fn read_until_closing_fence(contents: &[u8], start: usize) -> (block: Result<
    String,
    InvalidPreambleError,
>)
    ensures
        match block {
            Ok(block) => scanned_block(contents@, start as int) == BlockScan::Block(block@),
            Err(InvalidPreambleError::UnterminatedFence) => scanned_block(contents@, start as int)
                is Unterminated,
            Err(InvalidPreambleError::IOError(failure)) => is_invalid_text(failure)
                && scanned_block(contents@, start as int) is InvalidText,
            Err(_) => false,
        },
{
    let mut block = String::new();
    let mut position: usize = start;
    while position < contents.len()
        invariant
            start <= position,
            scanned_block(contents@, start as int) == match scanned_block(
                contents@,
                position as int,
            ) {
                BlockScan::Block(rest) => BlockScan::Block(block@ + rest),
                other => other,
            },
        decreases contents.len() - position,
    {
        let end = find_line_end(contents, position);
        proof {
            lemma_byte_line_end_bounds(contents@, position as int);
        }
        let line = slice_subrange(contents, position, end);
        let text = match text_of_bytes(line) {
            Some(text) => text,
            None => return Err(invalid_text()),
        };
        if is_fence(line, false) || is_fence(line, true) {
            assert(block@ + Seq::<char>::empty() =~= block@);
            return Ok(block);
        }
        let ghost before = block@;
        block.append(text);
        proof {
            match scanned_block(contents@, end as int) {
                BlockScan::Block(rest) => {
                    assert(before + (text@ + rest) =~= block@ + rest);
                },
                _ => {},
            }
        }
        position = end;
    }
    Err(InvalidPreambleError::UnterminatedFence)
}

impl InvalidPreambleError {
    /// Whether this error says how the search for a preamble ended.
    pub open spec fn explains(self, extraction: Extraction) -> bool {
        match self {
            InvalidPreambleError::MalformedFence(line) => extraction == Extraction::Malformed(
                line@,
            ),
            InvalidPreambleError::UnterminatedFence => extraction == Extraction::Unterminated,
            InvalidPreambleError::DeserializeError(error) => extraction == Extraction::Flawed(
                error.flaw,
            ),
            InvalidPreambleError::IOError(failure) => is_invalid_text(failure) && extraction
                == Extraction::InvalidText,
        }
    }
}

/// Reads the preamble at the top of a note.
pub fn extract_preamble(contents: &[u8]) -> (preamble: Result<Preamble, InvalidPreambleError>)
    ensures
        match preamble {
            Ok(preamble) => extraction_of_bytes(contents@) == Extraction::Found(preamble@),
            Err(error) => error.explains(extraction_of_bytes(contents@)),
        },
{
    let second = match ensure_preamble_fence(contents) {
        Ok(second) => second,
        Err(error) => return Err(error),
    };
    let block = match read_until_closing_fence(contents, second) {
        Ok(block) => block,
        Err(error) => return Err(error),
    };
    match deserialize_preamble(block.as_str()) {
        Ok(preamble) => Ok(preamble),
        Err(error) => Err(InvalidPreambleError::DeserializeError(error)),
    }
}

/// Whether `text` is what a preamble is written as, in a document that can
/// be read back: the preamble's TOML document between the fences, where no
/// line of the document is a fence and the TOML parser reads the two values
/// out of the document that the TOML printer wrote them into.
pub open spec fn is_written_as(preamble: PreambleView, text: Seq<char>) -> bool {
    &&& parts_of_moment(preamble.created_at) matches Ok(parts)
    &&& rendered_document(TITLE_KEY@, preamble.title, CREATED_AT_KEY@, parts) matches Some(
        document,
    )
    &&& text == framed(document)
    &&& !has_fence_line(fence_line() + (end_trimmed(document) + seq!['\n']), 4)
    &&& document_entries_of(end_trimmed(document) + seq!['\n'], TITLE_KEY@, CREATED_AT_KEY@)
        == Some((Some(FieldView::Text(preamble.title)), Some(FieldView::Moment(parts))))
}

/// Writing a preamble and reading it back gives the preamble again.
///
/// This holds of every preamble with an offset of whole minutes whose TOML
/// document holds no line that is a fence, as far as the TOML parser reads
/// the two values out of the document that the TOML printer wrote them into.
pub proof fn lemma_extract_inverts_serialize(preamble: PreambleView, text: Seq<char>)
    requires
        preamble.created_at.is_valid(),
        preamble.created_at.offset_seconds % 60 == 0,
        is_written_as(preamble, text),
    ensures
        extraction_of(text) == Extraction::Found(preamble),
{
    let parts = parts_of_moment(preamble.created_at)->Ok_0;
    let document = rendered_document(TITLE_KEY@, preamble.title, CREATED_AT_KEY@, parts)->Some_0;
    let lines = end_trimmed(document) + seq!['\n'];
    let opened = fence_line() + lines;
    assert(text =~= opened + fence());
    assert(text[0] == '-' && text[1] == '-' && text[2] == '-' && text[3] == '\n');
    assert(line_end(text, 3) == 4);
    assert(line_end(text, 2) == 4);
    assert(line_end(text, 1) == 4);
    assert(line_end(text, 0) == 4);
    assert(text.subrange(0, 4) =~= fence_line());
    assert(opened.last() == '\n');
    lemma_fence_closes_block(opened, 4);
    assert(opened.subrange(4, opened.len() as int) =~= lines);
    lemma_moment_survives_parts(preamble.created_at);
}

/// A note that is text reads the same as bytes and as text.
pub proof fn lemma_extractions_agree(text: Seq<char>)
    ensures
        extraction_of_bytes(encode_utf8(text)) == extraction_of(text),
{
    lemma_line_ends_agree(text, 0);
    let end = line_end(text, 0);
    let first = text.subrange(0, end);
    lemma_encoded_subrange(text, 0, end);
    lemma_fence_bytes(first);
    encode_utf8_valid_utf8(first);
    encode_utf8_decode_utf8(first);
    lemma_blocks_agree(text, end);
}

/// Writing a preamble and reading the bytes of what was written gives the
/// preamble again, under the conditions of `lemma_extract_inverts_serialize`.
pub proof fn lemma_extract_inverts_serialize_bytes(preamble: PreambleView, text: Seq<char>)
    requires
        preamble.created_at.is_valid(),
        preamble.created_at.offset_seconds % 60 == 0,
        is_written_as(preamble, text),
    ensures
        extraction_of_bytes(encode_utf8(text)) == Extraction::Found(preamble),
{
    lemma_extract_inverts_serialize(preamble, text);
    lemma_extractions_agree(text);
}

} // verus!
