//! Where an upload lands: the object key, made of an optional folder, an
//! optional date segment and the file name.

use vstd::prelude::*;

use crate::clock::unix_seconds;
use crate::text::{decimal, push_char};

verus! {

/// Leap years of the proleptic Gregorian calendar, year 0 included.
pub open spec fn is_leap_year(year: int) -> bool {
    year % 4 == 0 && (year % 100 != 0 || year % 400 == 0)
}

/// The number of days of a month, for `1 <= month <= 12`.
pub open spec fn days_in_month(year: int, month: int) -> int {
    if month == 2 {
        if is_leap_year(year) {
            29
        } else {
            28
        }
    } else if month == 4 || month == 6 || month == 9 || month == 11 {
        30
    } else {
        31
    }
}

/// The first and the last year that a date can have.
pub open spec fn is_date_year(year: int) -> bool {
    -262143 <= year <= 262142
}

/// Whether year, month and day name a day that exists.
pub open spec fn is_calendar_date(year: int, month: int, day: int) -> bool {
    &&& is_date_year(year)
    &&& 1 <= month <= 12
    &&& 1 <= day <= days_in_month(year, month)
}

/// The decimal numeral of `n` with zeros in front up to `width` characters.
pub open spec fn zero_padded(n: nat, width: nat) -> Seq<char> {
    let digits = decimal(n);
    if digits.len() >= width {
        digits
    } else {
        Seq::new((width - digits.len()) as nat, |i: int| '0') + digits
    }
}

/// A year as it stands in a date segment: four digits from 0 to 9999, a
/// sign and at least four digits otherwise.
pub open spec fn year_text(year: int) -> Seq<char> {
    if 0 <= year <= 9999 {
        zero_padded(year as nat, 4)
    } else if year > 9999 {
        seq!['+'] + decimal(year as nat)
    } else {
        seq!['-'] + zero_padded((-year) as nat, 4)
    }
}

/// The date segment of an object key, `YYYY/MM/DD`.
pub open spec fn date_path(year: int, month: int, day: int) -> Seq<char> {
    year_text(year) + seq!['/'] + zero_padded(month as nat, 2) + seq!['/'] + zero_padded(
        day as nat,
        2,
    )
}

/// `NaiveDate::from_ymd_opt` of chrono, then the date's
/// `format("%Y/%m/%d")` through `to_string`. A date is made exactly of a
/// day that exists in chrono's range of years; `%Y` writes the year as
/// `year_text` has it, `%m` and `%d` two digits each.
#[verifier::external_body]
fn format_date_path(year: i32, month: u32, day: u32) -> (path: Option<String>)
    ensures
        path is Some <==> is_calendar_date(year as int, month as int, day as int),
        path matches Some(p) ==> p@ == date_path(year as int, month as int, day as int),
{
    match chrono::NaiveDate::from_ymd_opt(year, month, day) {
        Some(date) => Some(date.format("%Y/%m/%d").to_string()),
        None => None,
    }
}

/// The last second that the clock may show for a date to be made of it:
/// the end of the year 9999 in UTC.
pub const LAST_CLOCK_SECOND: u64 = 253_402_300_799;

/// chrono's `DateTime::from_timestamp`, the offset that `Local` gives for
/// that moment, `NaiveDateTime::checked_add_offset`, and `Datelike`: the
/// calendar date, in the machine's time zone, of a moment given in Unix
/// seconds. Where chrono's range checks refuse, there is no date; a date
/// that comes back is a day that exists. For the moments that are let in,
/// chrono panics only where the machine's time zone data names an offset
/// that it cannot hold, which no argument can rule out.
#[verifier::external_body]
fn local_date_at(unix_seconds: i64) -> (date: Option<(i32, u32, u32)>)
    requires
        0 <= unix_seconds <= LAST_CLOCK_SECOND,
    ensures
        date matches Some(d) ==> is_calendar_date(d.0 as int, d.1 as int, d.2 as int),
{
    let utc = chrono::DateTime::from_timestamp(unix_seconds, 0)?.naive_utc();
    let offset = chrono::TimeZone::offset_from_utc_datetime(&chrono::Local, &utc);
    let local = utc.checked_add_offset(offset)?.date();
    Some((chrono::Datelike::year(&local), chrono::Datelike::month(&local), chrono::Datelike::day(&local)))
}

/// A calendar date together with its date segment.
#[derive(Debug)]
pub struct CalendarDate {
    year: i32,
    month: u32,
    day: u32,
    path: String,
}

impl CalendarDate {
    #[verifier::type_invariant]
    spec fn well_formed(self) -> bool {
        &&& is_calendar_date(self.year as int, self.month as int, self.day as int)
        &&& self.path@ == date_path(self.year as int, self.month as int, self.day as int)
    }

    /// The year, astronomical: 0 is 1 BCE.
    pub closed spec fn year(self) -> int {
        self.year as int
    }

    /// The month, from 1.
    pub closed spec fn month(self) -> int {
        self.month as int
    }

    /// The day of the month, from 1.
    pub closed spec fn day(self) -> int {
        self.day as int
    }

    /// The date segment that this date contributes to an object key.
    pub open spec fn path_text(self) -> Seq<char> {
        date_path(self.year(), self.month(), self.day())
    }

    /// The date of the given year, month and day, where that day exists.
    pub fn new(year: i32, month: u32, day: u32) -> (date: Option<CalendarDate>)
        ensures
            date is Some <==> is_calendar_date(year as int, month as int, day as int),
            date matches Some(d) ==> d.year() == year && d.month() == month && d.day() == day,
    {
        match format_date_path(year, month, day) {
            Some(path) => Some(CalendarDate { year, month, day, path }),
            None => None,
        }
    }

    /// Today's date on the local calendar, or nothing where the clock
    /// shows a moment before 1970 or after the year 9999, of which no date
    /// is made.
    pub fn today() -> (date: Option<CalendarDate>)
        ensures
            date matches Some(d) ==> is_calendar_date(d.year(), d.month(), d.day()),
    {
        let seconds = match unix_seconds() {
            Some(seconds) => seconds,
            None => {
                return None;
            },
        };
        if seconds > LAST_CLOCK_SECOND {
            return None;
        }
        match local_date_at(seconds as i64) {
            Some((year, month, day)) => CalendarDate::new(year, month, day),
            None => None,
        }
    }

    /// The date segment, `YYYY/MM/DD`.
    pub fn path(&self) -> (path: &str)
        ensures
            path@ == self.path_text(),
            is_calendar_date(self.year(), self.month(), self.day()),
    {
        proof {
            use_type_invariant(self);
        }
        self.path.as_str()
    }
}

/// Lower-case hexadecimal digits.
pub open spec fn is_lower_hex(c: char) -> bool {
    ('0' <= c && c <= '9') || ('a' <= c && c <= 'f')
}

/// The hyphenated lower-case text of a random (version 4) UUID:
/// `xxxxxxxx-xxxx-4xxx-yxxx-xxxxxxxxxxxx`, `y` one of `8`, `9`, `a`, `b`.
pub open spec fn is_uuid_text(s: Seq<char>) -> bool {
    &&& s.len() == 36
    &&& forall|i: int|
        0 <= i < 36 ==> if i == 8 || i == 13 || i == 18 || i == 23 {
            s[i] == '-'
        } else {
            is_lower_hex(#[trigger] s[i])
        }
    &&& s[14] == '4'
    &&& (s[19] == '8' || s[19] == '9' || s[19] == 'a' || s[19] == 'b')
}

/// `Uuid::new_v4()` of the uuid crate, rendered by its `Display`: random
/// bits in the hyphenated lower-case form, with the version and variant
/// digits that the crate fixes. Two calls may give any two such texts.
/// The crate panics where the operating system gives no random bytes.
#[verifier::external_body]
pub(crate) fn random_uuid() -> (id: String)
    ensures
        is_uuid_text(id@),
{
    uuid::Uuid::new_v4().to_string()
}

/// The extension that a generated file name gets where the source has none.
pub open spec fn default_extension() -> Seq<char> {
    seq!['b', 'i', 'n']
}

/// The stored file name. With an identifier it is the identifier, a dot and
/// the source's extension; without, the source's own name, as it is.
pub open spec fn stored_file_name(
    source_name: Option<Seq<char>>,
    extension: Option<Seq<char>>,
    id: Option<Seq<char>>,
) -> Seq<char> {
    let ext = match extension {
        Some(e) => e,
        None => default_extension(),
    };
    match id {
        Some(id) => id + seq!['.'] + ext,
        None => match source_name {
            Some(name) => name,
            None => seq!['f', 'i', 'l', 'e', '.'] + ext,
        },
    }
}

/// The object key: the folder where it is not empty, the date segment
/// where there is one, and the file name, joined by `/`.
pub open spec fn object_key(folder: Seq<char>, date: Option<Seq<char>>, file_name: Seq<char>) -> Seq<
    char,
> {
    let head = if folder.len() > 0 {
        folder + seq!['/']
    } else {
        Seq::empty()
    };
    let middle = match date {
        Some(d) => d + seq!['/'],
        None => Seq::empty(),
    };
    head + middle + file_name
}

/// With generated names, two uploads have the same key only if they got
/// the same identifier: as long as identifiers do not repeat, keys do not
/// collide, whatever the files are called.
pub proof fn lemma_distinct_ids_distinct_keys(
    folder: Seq<char>,
    date: Option<Seq<char>>,
    source_name: Option<Seq<char>>,
    extension: Option<Seq<char>>,
    id_a: Seq<char>,
    id_b: Seq<char>,
)
    requires
        object_key(folder, date, stored_file_name(source_name, extension, Some(id_a)))
            == object_key(folder, date, stored_file_name(source_name, extension, Some(id_b))),
    ensures
        id_a == id_b,
{
    let head = if folder.len() > 0 {
        folder + seq!['/']
    } else {
        Seq::empty()
    };
    let middle = match date {
        Some(d) => d + seq!['/'],
        None => Seq::empty(),
    };
    let ext = match extension {
        Some(e) => e,
        None => default_extension(),
    };
    let front = head + middle;
    let back = seq!['.'] + ext;
    let key_a = object_key(folder, date, stored_file_name(source_name, extension, Some(id_a)));
    let key_b = object_key(folder, date, stored_file_name(source_name, extension, Some(id_b)));
    assert(key_a =~= front + id_a + back);
    assert(key_b =~= front + id_b + back);
    assert(id_a.len() == id_b.len());
    assert forall|i: int| 0 <= i < id_a.len() implies id_a[i] == id_b[i] by {
        assert(key_a[front.len() + i] == id_a[i]);
        assert(key_b[front.len() + i] == id_b[i]);
    }
    assert(id_a =~= id_b);
}

/// The date segment of an optional date.
pub open spec fn date_segment(date: Option<&CalendarDate>) -> Option<Seq<char>> {
    match date {
        Some(d) => Some(d.path_text()),
        None => None,
    }
}

/// The text of an optional string.
pub open spec fn text_of(s: Option<&str>) -> Option<Seq<char>> {
    match s {
        Some(s) => Some(s@),
        None => None,
    }
}

/// Derives the key under which a file is stored. `date` is given where
/// date folders are on, `id` where generated file names are on; apart from
/// those two the key depends on nothing. The key is used for storage as it
/// is and is never percent-encoded.
pub fn derive_object_key(
    file_name: Option<&str>,
    extension: Option<&str>,
    folder: &str,
    date: Option<&CalendarDate>,
    id: Option<&str>,
) -> (key: String)
    ensures
        key@ == object_key(
            folder@,
            date_segment(date),
            stored_file_name(text_of(file_name), text_of(extension), text_of(id)),
        ),
{
    let mut key = String::new();
    if !folder.is_empty() {
        key.append(folder);
        push_char(&mut key, '/');
    }
    if let Some(d) = date {
        key.append(d.path());
        push_char(&mut key, '/');
    }
    let ghost stem = key@;
    proof {
        reveal_strlit("bin");
        reveal_strlit("file.");
    }
    let ext = match extension {
        Some(e) => e,
        None => "bin",
    };
    match id {
        Some(id) => {
            key.append(id);
            push_char(&mut key, '.');
            key.append(ext);
        },
        None => match file_name {
            Some(name) => {
                key.append(name);
            },
            None => {
                key.append("file.");
                key.append(ext);
            },
        },
    }
    assert(key@ =~= object_key(
        folder@,
        date_segment(date),
        stored_file_name(text_of(file_name), text_of(extension), text_of(id)),
    ));
    key
}

} // verus!
