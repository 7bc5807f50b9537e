use jwglxt::errors::TransformError;
use jwglxt::schedule::{
    csv_records, header_row, resolve_location, week_label, week_marker_rows, Class, SemesterStart,
};

fn entry(jcs: &str, zcd: &str, xqj: &str) -> Class {
    Class {
        kcmc: "高等数学".to_string(),
        xm: "张三".to_string(),
        cdmc: "莲4号教学楼101".to_string(),
        jcs: jcs.to_string(),
        zcd: zcd.to_string(),
        xqj: xqj.to_string(),
    }
}

#[test]
fn slot_times_are_taken_exactly_from_the_table() {
    let start = SemesterStart::current();
    let rows = entry("1-2", "3-3周", "2").to_records(&start).unwrap();
    assert_eq!(rows[0][3], "8:30");
    assert_eq!(rows[0][4], "10:05");
    let rows = entry("1-8", "1-1周", "1").to_records(&start).unwrap();
    assert_eq!(rows[0][3], "8:30");
    assert_eq!(rows[0][4], "18:00");
    let rows = entry("7-7", "1-1周", "1").to_records(&start).unwrap();
    assert_eq!(rows[0][3], "16:25");
    assert_eq!(rows[0][4], "17:10");
}

#[test]
fn weeks_expand_to_dates_seven_days_apart() {
    // Weeks 3 through 5 on weekday 2, from the Monday 2022-02-21: the date
    // of week w is (w-1)*7 + 1 days after the start, so the Tuesdays
    // 2022-03-08, 2022-03-15 and 2022-03-22.
    let start = SemesterStart::current();
    let rows = entry("1-2", "3-5周", "2").to_records(&start).unwrap();
    assert_eq!(rows.len(), 3);
    assert_eq!(rows[0][1], "03/08/2022");
    assert_eq!(rows[1][1], "03/15/2022");
    assert_eq!(rows[2][1], "03/22/2022");
    for row in &rows {
        assert_eq!(row[1], row[2]);
        assert_eq!(row[5], "False");
        assert_eq!(row[8], "False");
        assert_eq!(row[0], "高等数学");
        assert_eq!(row[6], "张三");
        assert_eq!(row[7], "4101");
    }
}

#[test]
fn empty_week_range_yields_no_rows() {
    let start = SemesterStart::current();
    let rows = entry("1-2", "5-3周", "2").to_records(&start).unwrap();
    assert_eq!(rows.len(), 0);
}

#[test]
fn single_week_range_yields_one_row() {
    let start = SemesterStart::current();
    let rows = entry("3-4", "1-1周", "1").to_records(&start).unwrap();
    assert_eq!(rows.len(), 1);
    assert_eq!(rows[0][1], "02/21/2022");
    assert_eq!(rows[0][3], "10:25");
    assert_eq!(rows[0][4], "12:00");
}

#[test]
fn bad_fields_fail_with_their_errors() {
    let start = SemesterStart::current();
    assert_eq!(
        entry("0-2", "1-2周", "1").to_records(&start).unwrap_err(),
        TransformError::BadPeriodRange
    );
    assert_eq!(
        entry("1-9", "1-2周", "1").to_records(&start).unwrap_err(),
        TransformError::BadPeriodRange
    );
    assert_eq!(
        entry("1:2", "1-2周", "1").to_records(&start).unwrap_err(),
        TransformError::BadPeriodRange
    );
    assert_eq!(
        entry("1-2", "16周", "1").to_records(&start).unwrap_err(),
        TransformError::BadWeekRange
    );
    assert_eq!(
        entry("1-2", "1-2周", "0").to_records(&start).unwrap_err(),
        TransformError::BadWeekday
    );
    assert_eq!(
        entry("1-2", "1-2周", "8").to_records(&start).unwrap_err(),
        TransformError::BadWeekday
    );
    assert_eq!(
        entry("1-2", "1-2周", "x").to_records(&start).unwrap_err(),
        TransformError::BadWeekday
    );
}

#[test]
fn placeholder_entry_fails_the_pinned_fatal_policy() {
    let start = SemesterStart::current();
    assert_eq!(Class::empty().to_records(&start).unwrap_err(), TransformError::BadPeriodRange);
}

#[test]
fn location_codes_replace_building_names() {
    assert_eq!(resolve_location("莲4号教学楼101"), "4101");
    assert_eq!(resolve_location("文科组团楼203"), "3203");
    assert_eq!(resolve_location("operating theatre B"), "operating theatre B");
    assert_eq!(resolve_location(""), "");
}

#[test]
fn location_replacement_is_idempotent_on_ordinary_names() {
    for name in ["莲4号教学楼101", "文科组团楼203", "第二实验楼", ""] {
        let once = resolve_location(name);
        let twice = resolve_location(&once);
        assert_eq!(once, twice);
    }
}

#[test]
fn week_markers_always_number_eighteen() {
    let start = SemesterStart::current();
    let rows = week_marker_rows(&start).unwrap();
    assert_eq!(rows.len(), 18);
    assert_eq!(rows[0][0], "第一周");
    assert_eq!(rows[9][0], "第十周");
    assert_eq!(rows[10][0], "第十一周");
    assert_eq!(rows[17][0], "第十八周");
    assert_eq!(rows[0][1], "02/21/2022");
    assert_eq!(rows[0][2], "02/28/2022");
    assert_eq!(rows[17][1], "06/20/2022");
    assert_eq!(rows[17][2], "06/27/2022");
    for (i, row) in rows.iter().enumerate() {
        assert_eq!(row[5], "True");
        assert_eq!(row[8], "False");
        assert_eq!(row[3], "");
        assert_eq!(row[4], "");
        if i + 1 < rows.len() {
            // Contiguous: each marker ends where the next begins.
            assert_eq!(row[2], rows[i + 1][1]);
        }
    }
}

#[test]
fn csv_records_builds_the_whole_table() {
    let start = SemesterStart::current();
    let raw = r#"{"kbList":[
        {"kcmc":"高等数学","xm":"张三","cdmc":"莲4号教学楼101","jcs":"1-2","zcd":"1-3周","xqj":"1"},
        {"kcmc":"英语","xm":"李四","cdmc":"文科组团楼203","jcs":"5-6","zcd":"2-2周","xqj":"4"}
    ]}"#;
    let rows = csv_records(raw, &start).unwrap();
    // Header, 3 + 1 class rows, 18 markers.
    assert_eq!(rows.len(), 1 + 4 + 18);
    assert_eq!(rows[0], header_row());
    assert_eq!(rows[1][0], "高等数学");
    assert_eq!(rows[1][1], "02/21/2022");
    assert_eq!(rows[3][1], "03/07/2022");
    assert_eq!(rows[4][0], "英语");
    assert_eq!(rows[4][1], "03/03/2022");
    assert_eq!(rows[4][7], "3203");
    assert_eq!(rows[5][0], "第一周");
}

#[test]
fn malformed_entry_aborts_the_export() {
    // An entry without its `jcs` field degrades to the placeholder, whose
    // empty fields then fail range parsing; under the pinned fatal policy
    // that ends the whole export.
    let start = SemesterStart::current();
    let raw = r#"{"kbList":[
        {"kcmc":"高等数学","xm":"张三","cdmc":"a","zcd":"1-3周","xqj":"1"},
        {"kcmc":"英语","xm":"李四","cdmc":"b","jcs":"5-6","zcd":"2-2周","xqj":"4"}
    ]}"#;
    assert_eq!(csv_records(raw, &start).unwrap_err(), TransformError::BadPeriodRange);
}

#[test]
fn malformed_response_is_rejected() {
    let start = SemesterStart::current();
    assert_eq!(csv_records("not json", &start).unwrap_err(), TransformError::MalformedResponse);
    assert_eq!(csv_records("{}", &start).unwrap_err(), TransformError::MalformedResponse);
    assert_eq!(
        csv_records(r#"{"kbList":"nope"}"#, &start).unwrap_err(),
        TransformError::MalformedResponse
    );
}

#[test]
fn empty_schedule_still_yields_markers() {
    let start = SemesterStart::current();
    let rows = csv_records(r#"{"kbList":[]}"#, &start).unwrap();
    assert_eq!(rows.len(), 1 + 18);
}

#[test]
fn week_labels_compose_above_ten() {
    assert_eq!(week_label(1), "第一周");
    assert_eq!(week_label(10), "第十周");
    assert_eq!(week_label(11), "第十一周");
    assert_eq!(week_label(18), "第十八周");
}
