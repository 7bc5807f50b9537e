use vstd::prelude::*;
use vstd::string::*;

use crate::errors::TransformError;
use crate::json::{kb_fields_of, kb_list_fields};
use crate::text::{has_sub, parse_u32, parse_u32_spec, replace_all, replace_spec};

verus! {

// ---------------------------------------------------------------------------
// The semester start date
// ---------------------------------------------------------------------------

/// The Monday on which the first semester week begins. Every calendar date of
/// the export is counted in days from here. It is configuration, not derived
/// from the fetched data, and must be updated each semester.
pub struct SemesterStart {
    pub year: i32,
    pub month: u32,
    pub day: u32,
}

impl SemesterStart {
    /// The baked-in default start, 2022-02-21: the semester the fixed slot
    /// table and week count were written for.
    pub fn current() -> (r: SemesterStart)
        ensures
            r.year == 2022 && r.month == 2 && r.day == 21,
    {
        SemesterStart { year: 2022, month: 2, day: 21 }
    }
}

/// What rendering the calendar date `offset` days after year-month-day in
/// month/day/year order yields; nothing when the base is no calendar date or
/// the sum leaves the calendar's range.
pub uninterp spec fn mdy_of(year: int, month: int, day: int, offset: int) -> Option<Seq<char>>;

/// Relies on chrono's NaiveDate::from_ymd_opt, TimeDelta::try_days,
/// NaiveDate::checked_add_signed and `%m/%d/%Y` formatting: the calendar date
/// `offset` days after the given one, rendered month/day/year; the result
/// depends on the arguments alone.
#[verifier::external_body]
fn format_mdy(year: i32, month: u32, day: u32, offset: i64) -> (r: Option<String>)
    ensures
        r is Some <==> mdy_of(year as int, month as int, day as int, offset as int) is Some,
        r matches Some(s) ==> Some(s@) == mdy_of(
            year as int,
            month as int,
            day as int,
            offset as int,
        ),
{
    let base = chrono::NaiveDate::from_ymd_opt(year, month, day)?;
    let date = base.checked_add_signed(chrono::TimeDelta::try_days(offset)?)?;
    Some(date.format("%m/%d/%Y").to_string())
}

/// The rendered date `offset` days after the semester start.
pub open spec fn start_mdy(start: SemesterStart, offset: int) -> Option<Seq<char>> {
    mdy_of(start.year as int, start.month as int, start.day as int, offset)
}

/// How many days after the semester start week `w` meets on weekday `day`
/// (both 1-based: week 1 is the start week, weekday 1 the start's weekday).
pub open spec fn day_offset(w: int, day: int) -> int {
    (w - 1) * 7 + (day - 1)
}

// ---------------------------------------------------------------------------
// The fixed eight-slot timetable
// ---------------------------------------------------------------------------

/// When period slot `i` (1-based) begins.
pub open spec fn slot_start_spec(i: int) -> Seq<char> {
    if i == 1 {
        "8:30"@
    } else if i == 2 {
        "9:25"@
    } else if i == 3 {
        "10:25"@
    } else if i == 4 {
        "11:20"@
    } else if i == 5 {
        "14:30"@
    } else if i == 6 {
        "15:25"@
    } else if i == 7 {
        "16:25"@
    } else {
        "17:20"@
    }
}

/// When period slot `i` (1-based) ends.
pub open spec fn slot_end_spec(i: int) -> Seq<char> {
    if i == 1 {
        "9:15"@
    } else if i == 2 {
        "10:05"@
    } else if i == 3 {
        "11:10"@
    } else if i == 4 {
        "12:00"@
    } else if i == 5 {
        "15:15"@
    } else if i == 6 {
        "16:05"@
    } else if i == 7 {
        "17:10"@
    } else {
        "18:00"@
    }
}

/// The start time of slot `i`.
pub fn slot_start(i: u32) -> (r: &'static str)
    requires
        1 <= i <= 8,
    ensures
        r@ == slot_start_spec(i as int),
{
    match i {
        1 => "8:30",
        2 => "9:25",
        3 => "10:25",
        4 => "11:20",
        5 => "14:30",
        6 => "15:25",
        7 => "16:25",
        _ => "17:20",
    }
}

/// The end time of slot `i`.
pub fn slot_end(i: u32) -> (r: &'static str)
    requires
        1 <= i <= 8,
    ensures
        r@ == slot_end_spec(i as int),
{
    match i {
        1 => "9:15",
        2 => "10:05",
        3 => "11:10",
        4 => "12:00",
        5 => "15:15",
        6 => "16:05",
        7 => "17:10",
        _ => "18:00",
    }
}

// ---------------------------------------------------------------------------
// Locations
// ---------------------------------------------------------------------------

/// The first building whose name is shortened in the export.
pub open spec fn building_a() -> Seq<char> {
    "\u{83b2}4\u{53f7}\u{6559}\u{5b66}\u{697c}"@
}

/// The second building whose name is shortened in the export.
pub open spec fn building_b() -> Seq<char> {
    "\u{6587}\u{79d1}\u{7ec4}\u{56e2}\u{697c}"@
}

/// A location with both building names shortened to their codes — the first
/// to "4", the second to "3" — and all other text passed through unchanged.
pub open spec fn resolve_location_spec(s: Seq<char>) -> Seq<char> {
    replace_spec(replace_spec(s, building_a(), "4"@), building_b(), "3"@)
}

/// Shorten the two known building names in a location to their codes.
pub fn resolve_location(s: &str) -> (r: String)
    ensures
        r@ == resolve_location_spec(s@),
{
    proof {
        reveal_strlit("\u{83b2}4\u{53f7}\u{6559}\u{5b66}\u{697c}");
        reveal_strlit("\u{6587}\u{79d1}\u{7ec4}\u{56e2}\u{697c}");
    }
    let t = replace_all(s, "\u{83b2}4\u{53f7}\u{6559}\u{5b66}\u{697c}", "4");
    replace_all(t.as_str(), "\u{6587}\u{79d1}\u{7ec4}\u{56e2}\u{697c}", "3")
}

// ---------------------------------------------------------------------------
// Ranges of the form "a-b"
// ---------------------------------------------------------------------------

/// What parsing a range string yields: the numbers on either side of the
/// first dash, the right one read up to the next dash or the end. A string
/// without a dash, or with a side that is not a number, is no range.
pub open spec fn range_spec(s: Seq<char>) -> Option<(u32, u32)> {
    let k = crate::text::first_char_from(s, '-', 0);
    if k == s.len() {
        Option::None
    } else {
        let m = crate::text::first_char_from(s, '-', k + 1);
        match (parse_u32_spec(s.subrange(0, k)), parse_u32_spec(s.subrange(k + 1, m))) {
            (Option::Some(a), Option::Some(b)) => Option::Some((a, b)),
            _ => Option::None,
        }
    }
}

/// Parse a range string of the form "a-b".
pub fn parse_range(s: &str) -> (r: Option<(u32, u32)>)
    ensures
        r == range_spec(s@),
{
    let slen = s.unicode_len();
    let k = crate::text::find_char(s, '-', 0);
    if k == slen {
        return Option::None;
    }
    let m = crate::text::find_char(s, '-', k + 1);
    let left = parse_u32(s.substring_char(0, k));
    let right = parse_u32(s.substring_char(k + 1, m));
    match (left, right) {
        (Option::Some(a), Option::Some(b)) => Option::Some((a, b)),
        _ => Option::None,
    }
}

/// Shortening a location is idempotent: on any location whose shortened form
/// holds no further occurrence of either building name, doing it twice
/// yields what doing it once does. (A pathological location can spell a
/// building name across a shortened occurrence; those are the inputs the
/// premise leaves out.)
pub proof fn lemma_resolve_location_idempotent(s: Seq<char>)
    requires
        !has_sub(resolve_location_spec(s), building_a()),
        !has_sub(resolve_location_spec(s), building_b()),
    ensures
        resolve_location_spec(resolve_location_spec(s)) == resolve_location_spec(s),
{
    reveal_strlit("\u{83b2}4\u{53f7}\u{6559}\u{5b66}\u{697c}");
    reveal_strlit("\u{6587}\u{79d1}\u{7ec4}\u{56e2}\u{697c}");
    crate::text::lemma_replace_none(resolve_location_spec(s), building_a(), "4"@);
    crate::text::lemma_replace_none(resolve_location_spec(s), building_b(), "3"@);
}

// ---------------------------------------------------------------------------
// A class entry and its expansion into calendar rows
// ---------------------------------------------------------------------------

/// One course-meeting pattern as the portal returns it: course name, the
/// one who teaches it, room, period range ("1-2"), week range ("3-16" with a
/// trailing unit marker), and weekday ("1".."7"). The fields arrive as
/// loosely-typed JSON text and are parsed only on expansion.
pub struct Class {
    pub kcmc: String,
    pub xm: String,
    pub cdmc: String,
    pub jcs: String,
    pub zcd: String,
    pub xqj: String,
}

/// The unit marker stripped off the tail of a week range.
pub open spec fn week_unit() -> Seq<char> {
    "\u{5468}"@
}

/// The period range of a class, as parsed from its `jcs` field.
pub open spec fn class_periods(c: Class) -> Option<(u32, u32)> {
    range_spec(c.jcs@)
}

/// The week range of a class: its `zcd` field with every unit marker
/// stripped, then parsed as a range.
pub open spec fn class_weeks(c: Class) -> Option<(u32, u32)> {
    range_spec(replace_spec(c.zcd@, week_unit(), Seq::<char>::empty()))
}

/// The weekday of a class, as parsed from its `xqj` field.
pub open spec fn class_weekday(c: Class) -> Option<u32> {
    parse_u32_spec(c.xqj@)
}

/// Both period slots parse and lie in the eight-slot table.
pub open spec fn periods_ok(c: Class) -> bool {
    match class_periods(c) {
        Option::Some((a, b)) => 1 <= a <= 8 && 1 <= b <= 8,
        Option::None => false,
    }
}

/// The weekday parses and lies in 1..=7.
pub open spec fn weekday_ok(c: Class) -> bool {
    match class_weekday(c) {
        Option::Some(d) => 1 <= d <= 7,
        Option::None => false,
    }
}

/// The first thing wrong with a class entry, in the order the expansion
/// checks: period range, then week range, then weekday, then whether every
/// meeting date lies in the calendar's range — or nothing, when the entry
/// expands cleanly.
pub open spec fn class_check_spec(c: Class, start: SemesterStart) -> Option<TransformError> {
    if !periods_ok(c) {
        Option::Some(TransformError::BadPeriodRange)
    } else if class_weeks(c) is None {
        Option::Some(TransformError::BadWeekRange)
    } else if !weekday_ok(c) {
        Option::Some(TransformError::BadWeekday)
    } else {
        let wk = class_weeks(c)->Some_0;
        let d = class_weekday(c)->Some_0;
        if exists|w: int|
            wk.0 <= w <= wk.1 && start_mdy(start, day_offset(w, d as int)) is None {
            Option::Some(TransformError::DateOutOfRange)
        } else {
            Option::None
        }
    }
}

/// The calendar row of one meeting of a class: week `w`, weekday `d`,
/// periods `a` through `b`. Start and end date are the meeting's date; the
/// times come from the slot table; the row is not all-day and not private;
/// the description carries the one who teaches, the location the shortened
/// room name.
pub open spec fn class_row_spec(
    c: Class,
    start: SemesterStart,
    w: int,
    d: int,
    a: int,
    b: int,
) -> Seq<Seq<char>> {
    let date = start_mdy(start, day_offset(w, d))->Some_0;
    seq![
        c.kcmc@,
        date,
        date,
        slot_start_spec(a),
        slot_end_spec(b),
        "False"@,
        c.xm@,
        resolve_location_spec(c.cdmc@),
        "False"@,
    ]
}

/// Every calendar row of a class entry, weeks ascending: one per week of its
/// range, both endpoints included, and none at all when the range is empty.
pub open spec fn class_rows_spec(c: Class, start: SemesterStart) -> Seq<Seq<Seq<char>>> {
    let pr = class_periods(c)->Some_0;
    let wk = class_weeks(c)->Some_0;
    let d = class_weekday(c)->Some_0;
    let count: int = if wk.0 <= wk.1 {
        wk.1 - wk.0 + 1
    } else {
        0
    };
    Seq::new(
        count as nat,
        |k: int| class_row_spec(c, start, wk.0 + k, d as int, pr.0 as int, pr.1 as int),
    )
}

impl Class {
    /// The all-blank placeholder that a malformed schedule entry degrades
    /// to.
    pub fn empty() -> (r: Class)
        ensures
            r.kcmc@ == Seq::<char>::empty(),
            r.xm@ == Seq::<char>::empty(),
            r.cdmc@ == Seq::<char>::empty(),
            r.jcs@ == Seq::<char>::empty(),
            r.zcd@ == Seq::<char>::empty(),
            r.xqj@ == Seq::<char>::empty(),
    {
        Class {
            kcmc: String::new(),
            xm: String::new(),
            cdmc: String::new(),
            jcs: String::new(),
            zcd: String::new(),
            xqj: String::new(),
        }
    }

    /// Expand a class entry into one calendar row per week of its range. A
    /// field that fails its parse is fatal for the export — the pinned
    /// policy — so the expansion fails with the entry's first error, and a
    /// clean entry yields exactly the rows of `class_rows_spec`.
    pub fn to_records(&self, start: &SemesterStart) -> (r: Result<
        Vec<Vec<String>>,
        TransformError,
    >)
        ensures
            r is Ok <==> class_check_spec(*self, *start) is None,
            r matches Result::Ok(rows) ==> rows.deep_view() == class_rows_spec(*self, *start),
            r matches Result::Err(e) ==> class_check_spec(*self, *start) == Option::Some(e),
    {
        let (a, b) = match parse_range(self.jcs.as_str()) {
            Option::Some(p) => p,
            Option::None => {
                return Result::Err(TransformError::BadPeriodRange);
            },
        };
        if a < 1 || a > 8 || b < 1 || b > 8 {
            return Result::Err(TransformError::BadPeriodRange);
        }
        proof {
            reveal_strlit("\u{5468}");
            reveal_strlit("");
            assert(""@ =~= Seq::<char>::empty());
        }
        let stripped = replace_all(self.zcd.as_str(), "\u{5468}", "");
        let (m, n) = match parse_range(stripped.as_str()) {
            Option::Some(p) => p,
            Option::None => {
                return Result::Err(TransformError::BadWeekRange);
            },
        };
        let d = match parse_u32(self.xqj.as_str()) {
            Option::Some(d) => d,
            Option::None => {
                return Result::Err(TransformError::BadWeekday);
            },
        };
        if d < 1 || d > 7 {
            return Result::Err(TransformError::BadWeekday);
        }
        let place = resolve_location(self.cdmc.as_str());
        let mut rows: Vec<Vec<String>> = Vec::new();
        let mut w: u64 = m as u64;
        while w <= n as u64
            invariant
                1 <= a <= 8,
                1 <= b <= 8,
                1 <= d <= 7,
                class_periods(*self) == Option::Some((a, b)),
                class_weeks(*self) == Option::Some((m, n)),
                class_weekday(*self) == Option::Some(d),
                place@ == resolve_location_spec(self.cdmc@),
                m as u64 <= w,
                w <= n as u64 + 1 || w == m as u64,
                rows@.len() == w - m,
                forall|w2: int|
                    m <= w2 < w ==> start_mdy(*start, #[trigger] day_offset(w2, d as int)) is Some,
                forall|k: int|
                    0 <= k < w - m ==> #[trigger] rows@[k].deep_view() == class_row_spec(
                        *self,
                        *start,
                        m + k,
                        d as int,
                        a as int,
                        b as int,
                    ),
            decreases n as u64 + 1 - w,
        {
            let offset: i64 = (w as i64 - 1) * 7 + (d as i64 - 1);
            let date = match format_mdy(start.year, start.month, start.day, offset) {
                Option::Some(s) => s,
                Option::None => {
                    return Result::Err(TransformError::DateOutOfRange);
                },
            };
            let row: Vec<String> = vec![
                self.kcmc.clone(),
                date.clone(),
                date,
                slot_start(a).to_owned(),
                slot_end(b).to_owned(),
                "False".to_owned(),
                self.xm.clone(),
                place.clone(),
                "False".to_owned(),
            ];
            proof {
                assert(row.deep_view() =~= class_row_spec(
                    *self,
                    *start,
                    w as int,
                    d as int,
                    a as int,
                    b as int,
                ));
            }
            rows.push(row);
            w = w + 1;
        }
        proof {
            assert(class_check_spec(*self, *start) is None);
            assert(rows.deep_view() =~~= class_rows_spec(*self, *start));
        }
        Result::Ok(rows)
    }
}

// ---------------------------------------------------------------------------
// Week marker rows
// ---------------------------------------------------------------------------

/// The Chinese numeral for `d` in 0..=10.
pub open spec fn chinese_digit_spec(d: int) -> Seq<char> {
    if d == 0 {
        "\u{96f6}"@
    } else if d == 1 {
        "\u{4e00}"@
    } else if d == 2 {
        "\u{4e8c}"@
    } else if d == 3 {
        "\u{4e09}"@
    } else if d == 4 {
        "\u{56db}"@
    } else if d == 5 {
        "\u{4e94}"@
    } else if d == 6 {
        "\u{516d}"@
    } else if d == 7 {
        "\u{4e03}"@
    } else if d == 8 {
        "\u{516b}"@
    } else if d == 9 {
        "\u{4e5d}"@
    } else {
        "\u{5341}"@
    }
}

/// The Chinese numeral for `n` in 1..=20: a single numeral up to ten, and
/// "ten" followed by the remainder's numeral above it.
pub open spec fn chinese_numeral_spec(n: int) -> Seq<char> {
    if n <= 10 {
        chinese_digit_spec(n)
    } else {
        chinese_digit_spec(10) + chinese_digit_spec(n - 10)
    }
}

/// The label of semester week `n`: "week n" with the number in Chinese
/// numerals.
pub open spec fn week_label_spec(n: int) -> Seq<char> {
    "\u{7b2c}"@ + chinese_numeral_spec(n) + "\u{5468}"@
}

fn chinese_digit(d: u32) -> (r: &'static str)
    requires
        d <= 10,
    ensures
        r@ == chinese_digit_spec(d as int),
{
    match d {
        0 => "\u{96f6}",
        1 => "\u{4e00}",
        2 => "\u{4e8c}",
        3 => "\u{4e09}",
        4 => "\u{56db}",
        5 => "\u{4e94}",
        6 => "\u{516d}",
        7 => "\u{4e03}",
        8 => "\u{516b}",
        9 => "\u{4e5d}",
        _ => "\u{5341}",
    }
}

/// The label of semester week `n`.
pub fn week_label(n: u32) -> (r: String)
    requires
        1 <= n <= 20,
    ensures
        r@ == week_label_spec(n as int),
{
    let mut out = "\u{7b2c}".to_owned();
    if n <= 10 {
        out.append(chinese_digit(n));
    } else {
        out.append(chinese_digit(10));
        out.append(chinese_digit(n - 10));
    }
    out.append("\u{5468}");
    proof {
        assert(out@ =~= week_label_spec(n as int));
    }
    out
}

/// How many week marker rows the export carries, whatever the schedule held.
pub open spec fn marker_week_count() -> int {
    18
}

/// The marker row of semester week `i` (1-based): an all-day row labelled
/// with the week's Chinese numeral, from the week's first day to the next
/// week's first day, everything else blank and not private.
pub open spec fn marker_row_spec(start: SemesterStart, i: int) -> Seq<Seq<char>> {
    seq![
        week_label_spec(i),
        start_mdy(start, 7 * (i - 1))->Some_0,
        start_mdy(start, 7 * i)->Some_0,
        Seq::<char>::empty(),
        Seq::<char>::empty(),
        "True"@,
        Seq::<char>::empty(),
        Seq::<char>::empty(),
        "False"@,
    ]
}

/// All the week boundaries exist as calendar dates.
pub open spec fn marker_dates_ok(start: SemesterStart) -> bool {
    forall|i: int| 0 <= i <= marker_week_count() ==> #[trigger] start_mdy(start, 7 * i) is Some
}

/// The eighteen marker rows, weeks ascending.
pub open spec fn marker_rows_spec(start: SemesterStart) -> Seq<Seq<Seq<char>>> {
    Seq::new(marker_week_count() as nat, |i: int| marker_row_spec(start, i + 1))
}

/// Emit the week marker rows: always exactly eighteen, whatever the schedule
/// held, each spanning one week, together covering the semester start to
/// eighteen weeks after it without a gap.
pub fn week_marker_rows(start: &SemesterStart) -> (r: Result<Vec<Vec<String>>, TransformError>)
    ensures
        r is Ok <==> marker_dates_ok(*start),
        r matches Result::Ok(rows) ==> rows.deep_view() == marker_rows_spec(*start),
        r is Err ==> r == Result::<Vec<Vec<String>>, TransformError>::Err(
            TransformError::DateOutOfRange,
        ),
{
    let mut rows: Vec<Vec<String>> = Vec::new();
    let mut i: u32 = 1;
    while i <= 18
        invariant
            1 <= i <= 19,
            rows@.len() == i - 1,
            forall|j: int| 0 <= j < i - 1 ==> #[trigger] start_mdy(*start, 7 * j) is Some,
            forall|j: int| 1 <= j < i ==> start_mdy(*start, #[trigger] (7 * j)) is Some,
            forall|j: int|
                0 <= j < i - 1 ==> #[trigger] rows@[j].deep_view() == marker_row_spec(
                    *start,
                    j + 1,
                ),
        decreases 19 - i,
    {
        let from = match format_mdy(start.year, start.month, start.day, 7 * (i as i64 - 1)) {
            Option::Some(s) => s,
            Option::None => {
                return Result::Err(TransformError::DateOutOfRange);
            },
        };
        let to = match format_mdy(start.year, start.month, start.day, 7 * i as i64) {
            Option::Some(s) => s,
            Option::None => {
                return Result::Err(TransformError::DateOutOfRange);
            },
        };
        let row: Vec<String> = vec![
            week_label(i),
            from,
            to,
            String::new(),
            String::new(),
            "True".to_owned(),
            String::new(),
            String::new(),
            "False".to_owned(),
        ];
        proof {
            assert(row.deep_view() =~= marker_row_spec(*start, i as int));
        }
        rows.push(row);
        i = i + 1;
    }
    proof {
        assert(rows.deep_view() =~~= marker_rows_spec(*start));
    }
    Result::Ok(rows)
}

// ---------------------------------------------------------------------------
// The whole table
// ---------------------------------------------------------------------------

/// The header of the exported table.
pub open spec fn header_spec() -> Seq<Seq<char>> {
    seq![
        "Subject"@,
        "Start Date"@,
        "End Date"@,
        "Start Time"@,
        "End Time"@,
        "All Day Event"@,
        "Description"@,
        "Location"@,
        "Private"@,
    ]
}

/// The header row of the exported table.
pub fn header_row() -> (r: Vec<String>)
    ensures
        r.deep_view() == header_spec(),
{
    let row: Vec<String> = vec![
        "Subject".to_owned(),
        "Start Date".to_owned(),
        "End Date".to_owned(),
        "Start Time".to_owned(),
        "End Time".to_owned(),
        "All Day Event".to_owned(),
        "Description".to_owned(),
        "Location".to_owned(),
        "Private".to_owned(),
    ];
    proof {
        assert(row.deep_view() =~= header_spec());
    }
    row
}

/// What expanding a list of entries yields: every entry's rows in entry
/// order, weeks ascending within an entry — or the first entry's error.
pub open spec fn entries_rows_spec(entries: Seq<Class>, start: SemesterStart) -> Result<
    Seq<Seq<Seq<char>>>,
    TransformError,
>
    decreases entries.len(),
{
    if entries.len() == 0 {
        Result::Ok(Seq::<Seq<Seq<char>>>::empty())
    } else {
        match class_check_spec(entries[0], start) {
            Option::Some(e) => Result::Err(e),
            Option::None => match entries_rows_spec(entries.skip(1), start) {
                Result::Err(e) => Result::Err(e),
                Result::Ok(rest) => Result::Ok(class_rows_spec(entries[0], start) + rest),
            },
        }
    }
}

proof fn lemma_entries_rows_push(entries: Seq<Class>, c: Class, start: SemesterStart)
    requires
        entries_rows_spec(entries, start) is Ok,
        class_check_spec(c, start) is None,
    ensures
        entries_rows_spec(entries.push(c), start) == Result::<
            Seq<Seq<Seq<char>>>,
            TransformError,
        >::Ok(entries_rows_spec(entries, start)->Ok_0 + class_rows_spec(c, start)),
    decreases entries.len(),
{
    if entries.len() == 0 {
        assert(entries.push(c)[0] == c);
        assert(entries.push(c).skip(1) =~= Seq::<Class>::empty());
        assert(entries_rows_spec(entries, start) == Result::<
            Seq<Seq<Seq<char>>>,
            TransformError,
        >::Ok(Seq::<Seq<Seq<char>>>::empty()));
        assert(entries_rows_spec(entries.push(c).skip(1), start) == Result::<
            Seq<Seq<Seq<char>>>,
            TransformError,
        >::Ok(Seq::<Seq<Seq<char>>>::empty()));
        assert(entries_rows_spec(entries.push(c), start) == Result::<
            Seq<Seq<Seq<char>>>,
            TransformError,
        >::Ok(class_rows_spec(c, start) + Seq::<Seq<Seq<char>>>::empty()));
        assert(entries_rows_spec(entries, start)->Ok_0 + class_rows_spec(c, start)
            =~= class_rows_spec(c, start) + Seq::<Seq<Seq<char>>>::empty());
    } else {
        assert(entries.push(c)[0] == entries[0]);
        assert(entries.push(c).skip(1) =~= entries.skip(1).push(c));
        lemma_entries_rows_push(entries.skip(1), c, start);
        assert(entries_rows_spec(entries.skip(1), start) is Ok);
        assert(class_check_spec(entries[0], start) is None);
        assert(entries_rows_spec(entries, start)->Ok_0 == class_rows_spec(entries[0], start)
            + entries_rows_spec(entries.skip(1), start)->Ok_0);
        assert(entries_rows_spec(entries.push(c), start) == Result::<
            Seq<Seq<Seq<char>>>,
            TransformError,
        >::Ok(class_rows_spec(entries[0], start) + (entries_rows_spec(entries.skip(1), start)->Ok_0
            + class_rows_spec(c, start))));
        assert(entries_rows_spec(entries, start)->Ok_0 + class_rows_spec(c, start)
            =~= class_rows_spec(entries[0], start) + (entries_rows_spec(entries.skip(1), start)->Ok_0
            + class_rows_spec(c, start)));
    }
}

proof fn lemma_entries_rows_err(entries: Seq<Class>, c: Class, start: SemesterStart, e: TransformError)
    requires
        entries_rows_spec(entries, start) is Ok,
        class_check_spec(c, start) == Option::Some(e),
    ensures
        entries_rows_spec(entries.push(c), start) == Result::<
            Seq<Seq<Seq<char>>>,
            TransformError,
        >::Err(e),
    decreases entries.len(),
{
    if entries.len() == 0 {
        assert(entries.push(c)[0] == c);
    } else {
        assert(entries.push(c)[0] == entries[0]);
        assert(entries.push(c).skip(1) =~= entries.skip(1).push(c));
        lemma_entries_rows_err(entries.skip(1), c, start, e);
    }
}

/// Build the whole table for a list of entries: the header, then every
/// entry's calendar rows in order, then the eighteen week markers. The first
/// failing entry — the pinned fatal policy — or a marker date out of range
/// fails the whole export.
pub fn schedule_rows(entries: &Vec<Class>, start: &SemesterStart) -> (r: Result<
    Vec<Vec<String>>,
    TransformError,
>)
    ensures
        r is Ok <==> entries_rows_spec(entries@, *start) is Ok && marker_dates_ok(*start),
        r matches Result::Ok(rows) ==> rows.deep_view() == seq![header_spec()]
            + entries_rows_spec(entries@, *start)->Ok_0 + marker_rows_spec(*start),
        r matches Result::Err(e) ==> entries_rows_spec(entries@, *start) == Result::<
            Seq<Seq<Seq<char>>>,
            TransformError,
        >::Err(e) || (entries_rows_spec(entries@, *start) is Ok && !marker_dates_ok(*start)
            && e == TransformError::DateOutOfRange),
{
    let mut rows: Vec<Vec<String>> = Vec::new();
    rows.push(header_row());
    let ghost header_only = rows.deep_view();
    proof {
        assert(header_only =~= seq![header_spec()]);
    }
    let mut idx: usize = 0;
    while idx < entries.len()
        invariant
            idx <= entries@.len(),
            entries_rows_spec(entries@.take(idx as int), *start) is Ok,
            rows.deep_view() =~= seq![header_spec()] + entries_rows_spec(
                entries@.take(idx as int),
                *start,
            )->Ok_0,
        decreases entries@.len() - idx,
    {
        let ghost done = entries@.take(idx as int);
        match entries[idx].to_records(start) {
            Result::Ok(mut cls_rows) => {
                let ghost before = rows.deep_view();
                let mut k: usize = 0;
                while k < cls_rows.len()
                    invariant
                        k <= cls_rows@.len(),
                        rows.deep_view() =~= before + cls_rows.deep_view().take(k as int),
                    decreases cls_rows@.len() - k,
                {
                    let row = cls_rows[k].clone();
                    proof {
                        assert(row.deep_view() == cls_rows.deep_view()[k as int]);
                        assert(before + cls_rows.deep_view().take(k as int) + seq![row.deep_view()]
                            =~= before + cls_rows.deep_view().take(k + 1));
                    }
                    rows.push(row);
                    k += 1;
                }
                proof {
                    assert(cls_rows.deep_view().take(cls_rows@.len() as int) =~= cls_rows.deep_view());
                    lemma_entries_rows_push(done, entries@[idx as int], *start);
                    assert(done.push(entries@[idx as int]) =~= entries@.take(idx + 1));
                }
            },
            Result::Err(e) => {
                proof {
                    lemma_entries_rows_err(done, entries@[idx as int], *start, e);
                    assert(done.push(entries@[idx as int]) =~= entries@.take(idx + 1));
                    assert(entries@.take(idx + 1).skip(0) =~= entries@.take(idx + 1));
                    lemma_entries_rows_prefix_err(entries@, *start, idx + 1, e);
                }
                return Result::Err(e);
            },
        }
        idx += 1;
    }
    proof {
        assert(entries@.take(entries@.len() as int) =~= entries@);
    }
    let markers = match week_marker_rows(start) {
        Result::Ok(m) => m,
        Result::Err(e) => {
            return Result::Err(e);
        },
    };
    let ghost with_entries = rows.deep_view();
    let mut k: usize = 0;
    while k < markers.len()
        invariant
            k <= markers@.len(),
            rows.deep_view() =~= with_entries + markers.deep_view().take(k as int),
        decreases markers@.len() - k,
    {
        let row = markers[k].clone();
        proof {
            assert(row.deep_view() == markers.deep_view()[k as int]);
            assert(with_entries + markers.deep_view().take(k as int) + seq![row.deep_view()]
                =~= with_entries + markers.deep_view().take(k + 1));
        }
        rows.push(row);
        k += 1;
    }
    proof {
        assert(markers.deep_view().take(markers@.len() as int) =~= markers.deep_view());
        assert(rows.deep_view() =~= seq![header_spec()] + entries_rows_spec(entries@, *start)->Ok_0
            + marker_rows_spec(*start));
    }
    Result::Ok(rows)
}

/// What a clean entry expands to, row by row. With week range m..=n (m <= n),
/// weekday `d` and period range a..=b, there are exactly n-m+1 rows; the row
/// of week m+k starts and ends on the date (m+k-1)*7 + (d-1) days after the
/// semester start — so the dates of consecutive rows lie exactly seven days
/// apart — and every row carries the slot table's start time for `a` and end
/// time for `b`, exactly.
pub proof fn lemma_class_expansion(c: Class, start: SemesterStart)
    requires
        class_check_spec(c, start) is None,
        class_weeks(c)->Some_0.0 <= class_weeks(c)->Some_0.1,
    ensures
        class_rows_spec(c, start).len() == class_weeks(c)->Some_0.1 - class_weeks(c)->Some_0.0
            + 1,
        forall|k: int|
            0 <= k < class_rows_spec(c, start).len() ==> #[trigger] class_rows_spec(c, start)[k]
                == class_row_spec(
                c,
                start,
                class_weeks(c)->Some_0.0 + k,
                class_weekday(c)->Some_0 as int,
                class_periods(c)->Some_0.0 as int,
                class_periods(c)->Some_0.1 as int,
            ),
        forall|k: int|
            0 <= k < class_rows_spec(c, start).len() ==> (#[trigger] class_rows_spec(c, start)[k])[1]
                == start_mdy(
                start,
                day_offset(class_weeks(c)->Some_0.0 + k, class_weekday(c)->Some_0 as int),
            )->Some_0 && class_rows_spec(c, start)[k][2] == class_rows_spec(c, start)[k][1]
                && class_rows_spec(c, start)[k][3] == slot_start_spec(
                class_periods(c)->Some_0.0 as int,
            ) && class_rows_spec(c, start)[k][4] == slot_end_spec(class_periods(c)->Some_0.1 as int),
        forall|w: int, d: int| #[trigger] day_offset(w + 1, d) == day_offset(w, d) + 7,
{
}

/// The week markers tile the semester without a gap: each marker row ends on
/// the very date the next one starts, the first starts on the semester start
/// and the last ends eighteen weeks after it.
pub proof fn lemma_marker_rows_contiguous(start: SemesterStart)
    ensures
        marker_rows_spec(start).len() == marker_week_count(),
        forall|i: int|
            0 <= i < marker_week_count() - 1 ==> (#[trigger] marker_rows_spec(start)[i])[2]
                == marker_rows_spec(start)[i + 1][1],
        marker_rows_spec(start)[0][1] == start_mdy(start, 0)->Some_0,
        marker_rows_spec(start)[marker_week_count() - 1][2] == start_mdy(
            start,
            7 * marker_week_count(),
        )->Some_0,
{
}

/// How many calendar rows a list of entries expands to: the week-range
/// length of each, summed.
pub open spec fn total_row_count(entries: Seq<Class>, start: SemesterStart) -> int
    decreases entries.len(),
{
    if entries.len() == 0 {
        0
    } else {
        class_rows_spec(entries[0], start).len() + total_row_count(entries.skip(1), start)
    }
}

/// The row count of a clean export is exactly the sum of its entries' week
/// lengths; with the header and the eighteen markers around it, the whole
/// table holds 1 + that sum + 18 rows.
pub proof fn lemma_table_row_count(entries: Seq<Class>, start: SemesterStart)
    requires
        entries_rows_spec(entries, start) is Ok,
    ensures
        entries_rows_spec(entries, start)->Ok_0.len() == total_row_count(entries, start),
        (seq![header_spec()] + entries_rows_spec(entries, start)->Ok_0
            + marker_rows_spec(start)).len() == 1 + total_row_count(entries, start)
            + marker_week_count(),
    decreases entries.len(),
{
    if entries.len() > 0 {
        lemma_table_row_count(entries.skip(1), start);
    }
}

// ---------------------------------------------------------------------------
// Reading entries out of the fetched JSON
// ---------------------------------------------------------------------------

/// The entry `c` is what the six field slots `f` decode to: the fields
/// themselves where all six are there as strings, the all-blank placeholder
/// otherwise — one malformed element must not void the whole export at this
/// stage (under the pinned fatal policy it will instead fail the expansion).
pub open spec fn entry_of_fields(f: Seq<Option<Seq<char>>>, c: Class) -> bool {
    if f.len() == 6 && f[0] is Some && f[1] is Some && f[2] is Some && f[3] is Some
        && f[4] is Some && f[5] is Some {
        c.kcmc@ == f[0]->Some_0 && c.xm@ == f[1]->Some_0 && c.cdmc@ == f[2]->Some_0 && c.jcs@
            == f[3]->Some_0 && c.zcd@ == f[4]->Some_0 && c.xqj@ == f[5]->Some_0
    } else {
        c.kcmc@ == Seq::<char>::empty() && c.xm@ == Seq::<char>::empty() && c.cdmc@
            == Seq::<char>::empty() && c.jcs@ == Seq::<char>::empty() && c.zcd@
            == Seq::<char>::empty() && c.xqj@ == Seq::<char>::empty()
    }
}

/// The entries `es` are what the decoded field lists `fs` yield, element by
/// element.
pub open spec fn entries_of_fields(fs: Seq<Seq<Option<Seq<char>>>>, es: Seq<Class>) -> bool {
    es.len() == fs.len() && forall|i: int|
        0 <= i < fs.len() ==> entry_of_fields(fs[i], #[trigger] es[i])
}

/// Two entries whose fields carry the same text expand the same way: every
/// spec about a class reads nothing but its fields' text.
proof fn lemma_entry_congruent(c1: Class, c2: Class, start: SemesterStart)
    requires
        c1.kcmc@ == c2.kcmc@,
        c1.xm@ == c2.xm@,
        c1.cdmc@ == c2.cdmc@,
        c1.jcs@ == c2.jcs@,
        c1.zcd@ == c2.zcd@,
        c1.xqj@ == c2.xqj@,
    ensures
        class_check_spec(c1, start) == class_check_spec(c2, start),
        class_check_spec(c1, start) is None ==> class_rows_spec(c1, start) == class_rows_spec(
            c2,
            start,
        ),
{
    assert(class_periods(c1) == class_periods(c2));
    assert(class_weeks(c1) == class_weeks(c2));
    assert(class_weekday(c1) == class_weekday(c2));
    if class_check_spec(c1, start) is None {
        let r1 = class_rows_spec(c1, start);
        let r2 = class_rows_spec(c2, start);
        let wk = class_weeks(c1)->Some_0;
        let d = class_weekday(c1)->Some_0 as int;
        let a = class_periods(c1)->Some_0.0 as int;
        let b = class_periods(c1)->Some_0.1 as int;
        assert forall|k: int| 0 <= k < r1.len() implies r1[k] == r2[k] by {
            assert(class_row_spec(c1, start, wk.0 + k, d, a, b) =~= class_row_spec(
                c2,
                start,
                wk.0 + k,
                d,
                a,
                b,
            ));
        }
        assert(r1 =~= r2);
    }
}

/// Entry lists decoded from the same field lists expand the same way.
proof fn lemma_entries_congruent(
    fs: Seq<Seq<Option<Seq<char>>>>,
    es1: Seq<Class>,
    es2: Seq<Class>,
    start: SemesterStart,
)
    requires
        entries_of_fields(fs, es1),
        entries_of_fields(fs, es2),
    ensures
        entries_rows_spec(es1, start) == entries_rows_spec(es2, start),
    decreases fs.len(),
{
    if fs.len() > 0 {
        assert(entry_of_fields(fs[0], es1[0]));
        assert(entry_of_fields(fs[0], es2[0]));
        lemma_entry_congruent(es1[0], es2[0], start);
        assert forall|i: int|
            0 <= i < fs.skip(1).len() implies entry_of_fields(
                fs.skip(1)[i],
                #[trigger] es1.skip(1)[i],
            ) && entry_of_fields(fs.skip(1)[i], es2.skip(1)[i]) by {
            assert(fs.skip(1)[i] == fs[i + 1]);
            assert(es1.skip(1)[i] == es1[i + 1]);
            assert(es2.skip(1)[i] == es2[i + 1]);
        }
        lemma_entries_congruent(fs.skip(1), es1.skip(1), es2.skip(1), start);
    }
}

/// Read the schedule entries out of the portal's response: the elements of
/// its `kbList` array, each decoded to its six text fields or degraded to
/// the all-blank placeholder. It succeeds exactly when the body is JSON
/// whose `kbList` is an array — anything else is `MalformedResponse` — and
/// the entries carry the decoded fields, element by element.
pub fn extract_entries(raw: &str) -> (r: Result<Vec<Class>, TransformError>)
    ensures
        r is Ok <==> kb_fields_of(raw@) is Some,
        r matches Result::Ok(es) ==> entries_of_fields(kb_fields_of(raw@)->Some_0, es@),
        r is Err ==> r == Result::<Vec<Class>, TransformError>::Err(
            TransformError::MalformedResponse,
        ),
{
    let fields = match kb_list_fields(raw) {
        Option::Some(v) => v,
        Option::None => {
            return Result::Err(TransformError::MalformedResponse);
        },
    };
    let mut entries: Vec<Class> = Vec::new();
    let mut i: usize = 0;
    while i < fields.len()
        invariant
            Some(fields.deep_view()) == kb_fields_of(raw@),
            forall|j: int| 0 <= j < fields@.len() ==> (#[trigger] fields@[j])@.len() == 6,
            i <= fields@.len(),
            entries@.len() == i,
            forall|j: int|
                0 <= j < i ==> entry_of_fields(fields.deep_view()[j], #[trigger] entries@[j]),
        decreases fields@.len() - i,
    {
        let el = &fields[i];
        let entry = match (&el[0], &el[1], &el[2], &el[3], &el[4], &el[5]) {
            (
                Option::Some(kcmc),
                Option::Some(xm),
                Option::Some(cdmc),
                Option::Some(jcs),
                Option::Some(zcd),
                Option::Some(xqj),
            ) => Class {
                kcmc: kcmc.clone(),
                xm: xm.clone(),
                cdmc: cdmc.clone(),
                jcs: jcs.clone(),
                zcd: zcd.clone(),
                xqj: xqj.clone(),
            },
            _ => Class::empty(),
        };
        proof {
            assert(fields.deep_view()[i as int] == fields@[i as int].deep_view());
            assert(entry_of_fields(fields.deep_view()[i as int], entry));
        }
        entries.push(entry);
        i += 1;
    }
    Result::Ok(entries)
}

/// The response text decodes and every decoded entry expands cleanly.
pub open spec fn expansion_ok(raw: Seq<char>, start: SemesterStart) -> bool {
    &&& kb_fields_of(raw) is Some
    &&& exists|es: Seq<Class>|
        entries_of_fields(kb_fields_of(raw)->Some_0, es) && (#[trigger] entries_rows_spec(
            es,
            start,
        )) is Ok
}

/// Turn the portal's raw schedule response into the full table of the
/// export: the header, one row per class meeting, and the eighteen week
/// markers. It succeeds exactly when the response decodes, every entry
/// expands cleanly and the marker dates exist; the rows are then the table
/// of the decoded entries, whichever entry list carries their fields. The
/// rows are handed back, not written: writing the file is the caller's
/// affair.
pub fn csv_records(raw: &str, start: &SemesterStart) -> (r: Result<
    Vec<Vec<String>>,
    TransformError,
>)
    ensures
        r is Ok <==> expansion_ok(raw@, *start) && marker_dates_ok(*start),
        r matches Result::Ok(rows) ==> forall|es: Seq<Class>|
            entries_of_fields(kb_fields_of(raw@)->Some_0, es) ==> rows.deep_view()
                == seq![header_spec()] + (#[trigger] entries_rows_spec(es, *start))->Ok_0
                + marker_rows_spec(*start),
        r matches Result::Err(e) ==> (kb_fields_of(raw@) is None && e
            == TransformError::MalformedResponse) || (exists|es: Seq<Class>|
            entries_of_fields(kb_fields_of(raw@)->Some_0, es) && (#[trigger] entries_rows_spec(
                es,
                *start,
            )) == Result::<Seq<Seq<Seq<char>>>, TransformError>::Err(e)) || (expansion_ok(
            raw@,
            *start,
        ) && !marker_dates_ok(*start) && e == TransformError::DateOutOfRange),
{
    let entries = match extract_entries(raw) {
        Result::Ok(es) => es,
        Result::Err(e) => {
            return Result::Err(e);
        },
    };
    let ghost fs = kb_fields_of(raw@)->Some_0;
    let rows = match schedule_rows(&entries, start) {
        Result::Ok(rows) => rows,
        Result::Err(e) => {
            proof {
                if entries_rows_spec(entries@, *start) is Err {
                    assert(!expansion_ok(raw@, *start)) by {
                        if expansion_ok(raw@, *start) {
                            let es2 = choose|es2: Seq<Class>|
                                entries_of_fields(fs, es2) && (#[trigger] entries_rows_spec(
                                    es2,
                                    *start,
                                )) is Ok;
                            lemma_entries_congruent(fs, entries@, es2, *start);
                        }
                    }
                } else {
                    assert(expansion_ok(raw@, *start)) by {
                        assert(entries_of_fields(fs, entries@) && entries_rows_spec(
                            entries@,
                            *start,
                        ) is Ok);
                    }
                }
            }
            return Result::Err(e);
        },
    };
    proof {
        assert(expansion_ok(raw@, *start)) by {
            assert(entries_of_fields(fs, entries@) && entries_rows_spec(entries@, *start) is Ok);
        }
        assert forall|es: Seq<Class>|
            entries_of_fields(kb_fields_of(raw@)->Some_0, es) implies rows.deep_view()
            == seq![header_spec()] + (#[trigger] entries_rows_spec(es, *start))->Ok_0
            + marker_rows_spec(*start) by {
            lemma_entries_congruent(fs, entries@, es, *start);
        }
    }
    Result::Ok(rows)
}

/// An error on an entry of a prefix is the error of the whole list.
proof fn lemma_entries_rows_prefix_err(
    entries: Seq<Class>,
    start: SemesterStart,
    upto: int,
    e: TransformError,
)
    requires
        0 <= upto <= entries.len(),
        entries_rows_spec(entries.take(upto), start) == Result::<
            Seq<Seq<Seq<char>>>,
            TransformError,
        >::Err(e),
    ensures
        entries_rows_spec(entries, start) == Result::<Seq<Seq<Seq<char>>>, TransformError>::Err(e),
    decreases upto,
{
    if upto > 0 {
        let t = entries.take(upto);
        if class_check_spec(t[0], start) is Some {
            assert(entries[0] == t[0]);
        } else {
            assert(t.skip(1) =~= entries.skip(1).take(upto - 1));
            lemma_entries_rows_prefix_err(entries.skip(1), start, upto - 1, e);
        }
    }
}

} // verus!
