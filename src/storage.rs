//! Names under which uploads are stored: `<YYYYMMDDHHMMSS>-<file name>` in
//! the `uploads` directory.

use vstd::prelude::*;

verus! {

/// A local date and time to the second.
#[derive(Clone, Copy, Debug, PartialEq, Eq)]
pub struct Timestamp {
    pub year: i32,
    pub month: u32,
    pub day: u32,
    pub hour: u32,
    pub minute: u32,
    pub second: u32,
}

pub open spec fn is_leap_year(y: int) -> bool {
    y % 4 == 0 && (y % 100 != 0 || y % 400 == 0)
}

pub open spec fn days_in_month(y: int, m: int) -> int {
    if m == 2 {
        if is_leap_year(y) {
            29
        } else {
            28
        }
    } else if m == 4 || m == 6 || m == 9 || m == 11 {
        30
    } else {
        31
    }
}

/// The fields name a real moment of the Gregorian calendar, in a year of at
/// most four digits.
pub open spec fn valid_moment(year: int, month: int, day: int, hour: int, minute: int, second: int) -> bool {
    &&& 0 <= year <= 9999
    &&& 1 <= month <= 12
    &&& 1 <= day <= days_in_month(year, month)
    &&& 0 <= hour < 24
    &&& 0 <= minute < 60
    &&& 0 <= second < 60
}

impl Timestamp {
    pub open spec fn wf(&self) -> bool {
        valid_moment(
            self.year as int,
            self.month as int,
            self.day as int,
            self.hour as int,
            self.minute as int,
            self.second as int,
        )
    }

    /// The moment with these fields, where they name one.
    pub fn new(year: i32, month: u32, day: u32, hour: u32, minute: u32, second: u32) -> (r: Option<
        Timestamp,
    >)
        ensures
            r is Some <==> valid_moment(
                year as int,
                month as int,
                day as int,
                hour as int,
                minute as int,
                second as int,
            ),
            r is Some ==> r->0 == (Timestamp { year, month, day, hour, minute, second }),
    {
        if year < 0 || year > 9999 || month < 1 || month > 12 || hour >= 24 || minute >= 60
            || second >= 60 || day < 1 {
            return None;
        }
        let leap = year % 4 == 0 && (year % 100 != 0 || year % 400 == 0);
        let last_day: u32 = if month == 2 {
            if leap {
                29
            } else {
                28
            }
        } else if month == 4 || month == 6 || month == 9 || month == 11 {
            30
        } else {
            31
        };
        if day > last_day {
            return None;
        }
        Some(Timestamp { year, month, day, hour, minute, second })
    }
}

pub open spec fn digit(d: int) -> char {
    seq!['0', '1', '2', '3', '4', '5', '6', '7', '8', '9'][d]
}

/// `n` in decimal, zero-padded to `width` digits (its low `width` digits).
pub open spec fn digits(n: int, width: nat) -> Seq<char>
    decreases width,
{
    if width == 0 {
        Seq::empty()
    } else {
        digits(n / 10, (width - 1) as nat).push(digit(n % 10))
    }
}

/// The moment as `YYYYMMDDHHMMSS`.
pub open spec fn stamp_text(t: Timestamp) -> Seq<char> {
    digits(t.year as int, 4) + digits(t.month as int, 2) + digits(t.day as int, 2) + digits(
        t.hour as int,
        2,
    ) + digits(t.minute as int, 2) + digits(t.second as int, 2)
}

/// The name under which a file sent as `sent_name` at `t` is stored.
pub open spec fn stored_name(t: Timestamp, sent_name: Seq<char>) -> Seq<char> {
    stamp_text(t) + seq!['-'] + sent_name
}

/// The path, relative to the working directory, of that stored file.
pub open spec fn stored_path(t: Timestamp, sent_name: Seq<char>) -> Seq<char> {
    upload_dir_prefix() + stored_name(t, sent_name)
}

pub open spec fn upload_dir_prefix() -> Seq<char> {
    "uploads/"@
}

/// The directory that holds the uploads.
pub const UPLOAD_DIR: &'static str = "uploads";

/// Relies on chrono's `NaiveDateTime::format` with `%Y%m%d%H%M%S`: for a
/// year from 0 to 9999 it writes four digits, and two for each other field,
/// zero-padded. `NaiveDate::from_ymd_opt` and `NaiveDate::and_hms_opt` only
/// build the value, and accept every valid moment.
#[verifier::external_body]
fn format_compact(t: &Timestamp) -> (r: String)
    requires
        t.wf(),
    ensures
        r@ == stamp_text(*t),
{
    let date = chrono::NaiveDate::from_ymd_opt(t.year, t.month, t.day).unwrap();
    let moment = date.and_hms_opt(t.hour, t.minute, t.second).unwrap();
    moment.format("%Y%m%d%H%M%S").to_string()
}

/// `<YYYYMMDDHHMMSS>-<sent_name>` for the moment `t`.
pub fn storage_name(t: &Timestamp, sent_name: &str) -> (r: String)
    requires
        t.wf(),
    ensures
        r@ == stored_name(*t, sent_name@),
{
    let mut name = format_compact(t);
    name.append("-");
    name.append(sent_name);
    proof {
        reveal_strlit("-");
    }
    assert(name@ =~= stored_name(*t, sent_name@));
    name
}

/// `uploads/<YYYYMMDDHHMMSS>-<sent_name>` for the moment `t`.
pub fn storage_path(t: &Timestamp, sent_name: &str) -> (r: String)
    requires
        t.wf(),
    ensures
        r@ == stored_path(*t, sent_name@),
{
    let name = storage_name(t, sent_name);
    let mut path = String::from_str("uploads/");
    path.append(name.as_str());
    assert(path@ =~= stored_path(*t, sent_name@));
    path
}

pub open spec fn pow10(w: nat) -> int
    decreases w,
{
    if w == 0 {
        1
    } else {
        10 * pow10((w - 1) as nat)
    }
}

proof fn lemma_digits_len(n: int, w: nat)
    ensures
        digits(n, w).len() == w,
    decreases w,
{
    if w > 0 {
        lemma_digits_len(n / 10, (w - 1) as nat);
    }
}

proof fn lemma_digits_injective(a: int, b: int, w: nat)
    requires
        0 <= a < pow10(w),
        0 <= b < pow10(w),
        digits(a, w) == digits(b, w),
    ensures
        a == b,
    decreases w,
{
    if w > 0 {
        let p = pow10((w - 1) as nat);
        assert(digits(a, w).last() == digit(a % 10));
        assert(digits(a / 10, (w - 1) as nat) == digits(a, w).drop_last());
        assert(digits(b / 10, (w - 1) as nat) == digits(b, w).drop_last());
        assert(0 <= a / 10 < p) by (nonlinear_arith)
            requires
                0 <= a < 10 * p,
        ;
        assert(0 <= b / 10 < p) by (nonlinear_arith)
            requires
                0 <= b < 10 * p,
        ;
        lemma_digits_injective(a / 10, b / 10, (w - 1) as nat);
        assert(a % 10 == b % 10);
        assert(a == 10 * (a / 10) + a % 10) by (nonlinear_arith);
        assert(b == 10 * (b / 10) + b % 10) by (nonlinear_arith);
    }
}

proof fn lemma_stamp_injective(t1: Timestamp, t2: Timestamp)
    requires
        t1.wf(),
        t2.wf(),
        stamp_text(t1) == stamp_text(t2),
    ensures
        t1 == t2,
{
    reveal_with_fuel(pow10, 5);
    let fields1 = seq![
        t1.year as int,
        t1.month as int,
        t1.day as int,
        t1.hour as int,
        t1.minute as int,
        t1.second as int,
    ];
    let fields2 = seq![
        t2.year as int,
        t2.month as int,
        t2.day as int,
        t2.hour as int,
        t2.minute as int,
        t2.second as int,
    ];
    lemma_digits_len(t1.year as int, 4);
    lemma_digits_len(t2.year as int, 4);
    lemma_digits_len(t1.month as int, 2);
    lemma_digits_len(t2.month as int, 2);
    lemma_digits_len(t1.day as int, 2);
    lemma_digits_len(t2.day as int, 2);
    lemma_digits_len(t1.hour as int, 2);
    lemma_digits_len(t2.hour as int, 2);
    lemma_digits_len(t1.minute as int, 2);
    lemma_digits_len(t2.minute as int, 2);
    lemma_digits_len(t1.second as int, 2);
    lemma_digits_len(t2.second as int, 2);
    let s1 = stamp_text(t1);
    let s2 = stamp_text(t2);
    assert(s1.subrange(0, 4) =~= digits(t1.year as int, 4));
    assert(s2.subrange(0, 4) =~= digits(t2.year as int, 4));
    assert(s1.subrange(4, 6) =~= digits(t1.month as int, 2));
    assert(s2.subrange(4, 6) =~= digits(t2.month as int, 2));
    assert(s1.subrange(6, 8) =~= digits(t1.day as int, 2));
    assert(s2.subrange(6, 8) =~= digits(t2.day as int, 2));
    assert(s1.subrange(8, 10) =~= digits(t1.hour as int, 2));
    assert(s2.subrange(8, 10) =~= digits(t2.hour as int, 2));
    assert(s1.subrange(10, 12) =~= digits(t1.minute as int, 2));
    assert(s2.subrange(10, 12) =~= digits(t2.minute as int, 2));
    assert(s1.subrange(12, 14) =~= digits(t1.second as int, 2));
    assert(s2.subrange(12, 14) =~= digits(t2.second as int, 2));
    lemma_digits_injective(t1.year as int, t2.year as int, 4);
    lemma_digits_injective(t1.month as int, t2.month as int, 2);
    lemma_digits_injective(t1.day as int, t2.day as int, 2);
    lemma_digits_injective(t1.hour as int, t2.hour as int, 2);
    lemma_digits_injective(t1.minute as int, t2.minute as int, 2);
    lemma_digits_injective(t1.second as int, t2.second as int, 2);
}

/// Uploads of the same file name at two different moments (to the second)
/// are stored under different paths.
pub proof fn lemma_distinct_moments_distinct_paths(t1: Timestamp, t2: Timestamp, sent_name: Seq<char>)
    requires
        t1.wf(),
        t2.wf(),
        t1 != t2,
    ensures
        stored_path(t1, sent_name) != stored_path(t2, sent_name),
{
    lemma_digits_len(t1.year as int, 4);
    lemma_digits_len(t2.year as int, 4);
    lemma_digits_len(t1.month as int, 2);
    lemma_digits_len(t2.month as int, 2);
    lemma_digits_len(t1.day as int, 2);
    lemma_digits_len(t2.day as int, 2);
    lemma_digits_len(t1.hour as int, 2);
    lemma_digits_len(t2.hour as int, 2);
    lemma_digits_len(t1.minute as int, 2);
    lemma_digits_len(t2.minute as int, 2);
    lemma_digits_len(t1.second as int, 2);
    lemma_digits_len(t2.second as int, 2);
    let d: int = upload_dir_prefix().len() as int;
    let p1 = stored_path(t1, sent_name);
    let p2 = stored_path(t2, sent_name);
    if p1 == p2 {
        assert(p1.subrange(d, d + 14) =~= stamp_text(t1));
        assert(p2.subrange(d, d + 14) =~= stamp_text(t2));
        lemma_stamp_injective(t1, t2);
    }
}

} // verus!
