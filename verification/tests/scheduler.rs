use micast_broadcaster::scheduler::parser::custom_serde::{hourminutes, weekaler};
use micast_broadcaster::scheduler::parser::{CivilDateTime, LocalTime, Schedule, Spot, TimeTable};
use micast_broadcaster::scheduler::{check_table, SpotIntervals};
use micast_broadcaster::weekday::Weekday;

fn civil(year: i32, month: u32, day: u32, hour: u32, minute: u32, second: u32) -> CivilDateTime {
    CivilDateTime { year, month, day, hour, minute, second }
}

fn at(date: (i32, u32, u32), weekday: Weekday, hour: u32, minute: u32, second: u32) -> LocalTime {
    LocalTime { at: civil(date.0, date.1, date.2, hour, minute, second), weekday }
}

/// `YYYY-MM-DDTHH:MM:SS`, with an optional trailing `Z`.
fn read_datetime(text: &str) -> CivilDateTime {
    let text = text.trim_end_matches('Z');
    let (date, time) = text.split_once('T').unwrap();
    let d: Vec<&str> = date.split('-').collect();
    let t: Vec<&str> = time.split(':').collect();
    civil(
        d[0].parse().unwrap(),
        d[1].parse().unwrap(),
        d[2].parse().unwrap(),
        t[0].parse().unwrap(),
        t[1].parse().unwrap(),
        t[2].parse().unwrap(),
    )
}

fn write_datetime(c: &CivilDateTime) -> String {
    format!("{:04}-{:02}-{:02}T{:02}:{:02}:{:02}", c.year, c.month, c.day, c.hour, c.minute, c.second)
}

fn schedule(start: &str, end: &str, weekdays: &str, interval: &str) -> Schedule {
    assert!(weekaler::is_valid(weekdays));
    Schedule {
        start: hourminutes::deserialize(start).unwrap(),
        end: hourminutes::deserialize(end).unwrap(),
        weekdays: weekaler::deserialize(weekdays),
        interval: interval.to_string(),
    }
}

fn attr(e: &quick_xml::events::BytesStart, name: &str) -> Option<String> {
    e.try_get_attribute(name).unwrap().map(|a| a.value.to_string())
}

/// Reads a time table document: `spots` elements holding `schedules` elements.
fn read_table(xml: &str) -> TimeTable {
    let mut reader = quick_xml::Reader::from_str(xml);
    let mut spots: Vec<Spot> = Vec::new();
    loop {
        match reader.read_event().unwrap() {
            quick_xml::events::Event::Start(e) | quick_xml::events::Event::Empty(e) => {
                let name = e.name().as_ref().to_string();
                if name == "spots" {
                    spots.push(Spot {
                        uri: attr(&e, "uri").unwrap(),
                        start: read_datetime(&attr(&e, "start").unwrap()),
                        end: read_datetime(&attr(&e, "end").unwrap()),
                        schedules: Vec::new(),
                    });
                } else if name == "schedules" {
                    let s = schedule(
                        &attr(&e, "start").unwrap(),
                        &attr(&e, "end").unwrap_or_default(),
                        &attr(&e, "weekdays").unwrap(),
                        &attr(&e, "interval").unwrap_or_default(),
                    );
                    spots.last_mut().unwrap().schedules.push(s);
                }
            }
            quick_xml::events::Event::Eof => break,
            _ => {}
        }
    }
    TimeTable { spots }
}

fn write_table(t: &TimeTable) -> String {
    let mut out = String::from("<TimeTable>");
    for spot in &t.spots {
        out.push_str(&format!(
            r#"<spots uri="{}" start="{}" end="{}">"#,
            spot.uri,
            write_datetime(&spot.start),
            write_datetime(&spot.end)
        ));
        for s in &spot.schedules {
            out.push_str(&format!(
                r#"<schedules start="{}" end="{}" weekdays="{}" interval="{}"/>"#,
                hourminutes::serialize(&s.start).unwrap(),
                hourminutes::serialize(&s.end).unwrap(),
                weekaler::serialize(&s.weekdays),
                s.interval
            ));
        }
        out.push_str("</spots>");
    }
    out.push_str("</TimeTable>");
    out
}

fn load(xml: &str, for_date: &LocalTime) -> SpotIntervals {
    let table = read_table(xml);
    assert!(check_table(&table, for_date));
    let mut out = SpotIntervals { spots: Vec::new() };
    out.process(table, for_date);
    out
}

const APRIL_4: (i32, u32, u32) = (2022, 4, 4);

#[test]
fn spots_load() {
    // 2022-04-04 10:30:00 is a Monday
    let now = at(APRIL_4, Weekday::Mon, 10, 30, 0);
    let s = r#"<SpotsDoc>
            <spots uri="file:///test.mp3" start="2022-04-01T17:00:00Z" end="2022-06-01T23:59:00Z">
                <schedules start="07:00" end="22:00" weekdays="Mon" interval="2h"/>
            </spots>
        </SpotsDoc>"#;
    let out = load(s, &now);
    assert_eq!(out.spots[0].runs_at, vec!(
        at(APRIL_4, Weekday::Mon, 11, 0, 0),
        at(APRIL_4, Weekday::Mon, 13, 0, 0),
        at(APRIL_4, Weekday::Mon, 15, 0, 0),
        at(APRIL_4, Weekday::Mon, 17, 0, 0),
        at(APRIL_4, Weekday::Mon, 19, 0, 0),
        at(APRIL_4, Weekday::Mon, 21, 0, 0),
    ));

    let s = r#"<SpotsDoc>
            <spots uri="file:///test.mp3" start="2022-04-01T17:00:00Z" end="2022-06-01T23:59:00Z">
                <schedules start="09:20" end="22:00" weekdays="Sun-Mon,Fri" interval="4h"/>
            </spots>
        </SpotsDoc>"#;
    let out = load(s, &now);
    assert_eq!(out.spots[0].runs_at, vec!(
        at(APRIL_4, Weekday::Mon, 13, 20, 0),
        at(APRIL_4, Weekday::Mon, 17, 20, 0),
        at(APRIL_4, Weekday::Mon, 21, 20, 0),
    ));

    let s = r#"<SpotsDoc>
            <spots uri="file:///test.mp3" start="2022-04-01T17:00:00Z" end="2022-06-01T23:59:00Z">
                <schedules start="07:00" end="22:00" weekdays="Mon" interval="2h"/>
                <schedules start="09:20" end="22:00" weekdays="Sun-Mon,Fri" interval="4h"/>
            </spots>
        </SpotsDoc>"#;
    let out = load(s, &now);
    assert_eq!(out.spots[0].runs_at, vec!(
        at(APRIL_4, Weekday::Mon, 11, 0, 0),
        at(APRIL_4, Weekday::Mon, 13, 0, 0),
        at(APRIL_4, Weekday::Mon, 15, 0, 0),
        at(APRIL_4, Weekday::Mon, 17, 0, 0),
        at(APRIL_4, Weekday::Mon, 19, 0, 0),
        at(APRIL_4, Weekday::Mon, 21, 0, 0),
        at(APRIL_4, Weekday::Mon, 13, 20, 0),
        at(APRIL_4, Weekday::Mon, 17, 20, 0),
        at(APRIL_4, Weekday::Mon, 21, 20, 0),
    ));
}

#[test]
fn spots_sort() {
    let now = at(APRIL_4, Weekday::Mon, 10, 30, 0);
    let s = r#"<SpotsDoc>
            <spots uri="file:///test.mp3" start="2022-04-01T17:00:00Z" end="2022-06-01T23:59:00Z">
                <schedules start="07:00" end="22:00" weekdays="Mon" interval="2h"/>
            </spots>
            <spots uri="file:///ab_9_2.mp3" start="2022-04-01T17:00:00Z" end="2022-06-01T23:59:00Z">
                <schedules start="09:20" end="22:00" weekdays="Sun-Mon,Fri" interval="4h"/>
            </spots>
        </SpotsDoc>"#;
    let out = load(s, &now);
    let sorted_output = out.sort();
    let expected = vec![
        ("file:///test.mp3", at(APRIL_4, Weekday::Mon, 11, 0, 0)),
        ("file:///test.mp3", at(APRIL_4, Weekday::Mon, 13, 0, 0)),
        ("file:///ab_9_2.mp3", at(APRIL_4, Weekday::Mon, 13, 20, 0)),
        ("file:///test.mp3", at(APRIL_4, Weekday::Mon, 15, 0, 0)),
        ("file:///test.mp3", at(APRIL_4, Weekday::Mon, 17, 0, 0)),
        ("file:///ab_9_2.mp3", at(APRIL_4, Weekday::Mon, 17, 20, 0)),
        ("file:///test.mp3", at(APRIL_4, Weekday::Mon, 19, 0, 0)),
        ("file:///test.mp3", at(APRIL_4, Weekday::Mon, 21, 0, 0)),
        ("file:///ab_9_2.mp3", at(APRIL_4, Weekday::Mon, 21, 20, 0)),
    ];
    let got: Vec<(&str, LocalTime)> =
        sorted_output.iter().map(|s| (s.uri.as_str(), s.runs_at)).collect();
    assert_eq!(got, expected);
}

fn june_first_schedule(end: Option<(u16, u16)>, weekdays: Vec<Weekday>, interval: &str) -> Schedule {
    Schedule { start: Some((7, 33)), end, weekdays, interval: interval.to_string() }
}

const JUNE_1: (i32, u32, u32) = (2022, 6, 1);

#[test]
fn generate_intervals() {
    let s = june_first_schedule(
        Some((22, 15)),
        vec![Weekday::Mon, Weekday::Tue, Weekday::Fri],
        "40m",
    );
    assert!(s.can_generate_intervals());
    let intis = s.generate_intervals(&at(JUNE_1, Weekday::Wed, 8, 59, 0));
    let r = intis.unwrap_or(Vec::new());
    println!("generated intervals: {:?} len:{}", &r, &r.len());
    assert_eq!(r.len(), 20);
    assert_eq!(r[0], at(JUNE_1, Weekday::Wed, 9, 33, 0));
    assert_eq!(r[19], at(JUNE_1, Weekday::Wed, 22, 13, 0));
}

#[test]
fn generate_intervals_with_no_interval_settings() {
    let now = at(JUNE_1, Weekday::Wed, 8, 59, 0);
    let s = june_first_schedule(Some((22, 15)), vec![Weekday::Mon, Weekday::Tue, Weekday::Fri], "");
    let out = s.generate_intervals(&now).unwrap();
    assert_eq!(out.len(), 1);
    assert_eq!(out[0], at(JUNE_1, Weekday::Wed, 7, 33, 0));

    let s = june_first_schedule(None, vec![Weekday::Mon, Weekday::Tue, Weekday::Fri], "");
    let out = s.generate_intervals(&now).unwrap();
    assert_eq!(out.len(), 1);
    assert_eq!(out[0], at(JUNE_1, Weekday::Wed, 7, 33, 0));

    let s = june_first_schedule(None, Vec::new(), "");
    let out = s.generate_intervals(&now).unwrap();
    assert_eq!(out.len(), 1);
    assert_eq!(out[0], at(JUNE_1, Weekday::Wed, 7, 33, 0));
}

fn example_table() -> TimeTable {
    TimeTable {
        spots: vec![Spot {
            uri: "file:///test.mp3".to_string(),
            start: civil(2022, 4, 1, 17, 0, 0),
            end: civil(2022, 6, 1, 23, 59, 0),
            schedules: vec![
                Schedule {
                    start: Some((7, 33)),
                    end: Some((22, 15)),
                    weekdays: vec![Weekday::Mon, Weekday::Tue, Weekday::Fri],
                    interval: "2h".to_string(),
                },
                Schedule {
                    start: Some((10, 0)),
                    end: Some((22, 0)),
                    weekdays: vec![Weekday::Sun],
                    interval: "2h".to_string(),
                },
                Schedule {
                    start: Some((10, 0)),
                    end: Some((22, 0)),
                    weekdays: vec![Weekday::Sun, Weekday::Mon, Weekday::Fri],
                    interval: "2h".to_string(),
                },
            ],
        }],
    }
}

#[test]
fn scheduler_xml_to_string() {
    let out = write_table(&example_table());
    assert_eq!(out, r#"<TimeTable><spots uri="file:///test.mp3" start="2022-04-01T17:00:00" end="2022-06-01T23:59:00"><schedules start="07:33" end="22:15" weekdays="Mon-Tue,Fri" interval="2h"/><schedules start="10:00" end="22:00" weekdays="Sun" interval="2h"/><schedules start="10:00" end="22:00" weekdays="Sun-Mon,Fri" interval="2h"/></spots></TimeTable>"#);
}

#[test]
fn scheduler_string_to_xml() {
    let s = r#"<TimeTable>
            <spots uri="file:///test.mp3" start="2022-04-01T17:00:00" end="2022-06-01T23:59:00">
                <schedules start="07:33" end="22:15" weekdays="Mon-Tue,Fri" interval="2h"/>
                <schedules start="10:00" end="22:00" weekdays="Sun" interval="2h"/>
                <schedules start="10:00" end="22:00" weekdays="Sun-Mon,Fri" interval="2h"/>
            </spots>
        </TimeTable>"#;
    let out = read_table(s);
    let expected = example_table();
    assert_eq!(out.spots.len(), expected.spots.len());
    for (a, b) in out.spots.iter().zip(expected.spots.iter()) {
        assert_eq!(a.uri, b.uri);
        assert_eq!(a.start, b.start);
        assert_eq!(a.end, b.end);
        assert_eq!(a.schedules.len(), b.schedules.len());
        for (x, y) in a.schedules.iter().zip(b.schedules.iter()) {
            assert_eq!(x.start, y.start);
            assert_eq!(x.end, y.end);
            assert_eq!(x.weekdays, y.weekdays);
            assert_eq!(x.interval, y.interval);
        }
    }
}

#[test]
fn generate_intervals_include_end_point() {
    let s = schedule("10:00", "10:40", "Wed", "20m");
    let runs = s.generate_intervals(&at(JUNE_1, Weekday::Wed, 0, 0, 0)).unwrap();
    assert_eq!(runs, vec![
        at(JUNE_1, Weekday::Wed, 10, 0, 0),
        at(JUNE_1, Weekday::Wed, 10, 20, 0),
        at(JUNE_1, Weekday::Wed, 10, 40, 0),
    ]);
    let s = schedule("22:00", "22:15", "Wed", "10m");
    let runs = s.generate_intervals(&at(JUNE_1, Weekday::Wed, 0, 0, 0)).unwrap();
    assert_eq!(runs, vec![at(JUNE_1, Weekday::Wed, 22, 0, 0), at(JUNE_1, Weekday::Wed, 22, 10, 0)]);
    let s = schedule("23:00", "", "Wed", "59m");
    let runs = s.generate_intervals(&at(JUNE_1, Weekday::Wed, 0, 0, 0)).unwrap();
    assert_eq!(runs, vec![at(JUNE_1, Weekday::Wed, 23, 0, 0), at(JUNE_1, Weekday::Wed, 23, 59, 0)]);
}

#[test]
fn generate_intervals_none_when_day_is_over() {
    let s = schedule("07:00", "22:00", "Mon", "2h");
    assert!(s.generate_intervals(&at(APRIL_4, Weekday::Mon, 23, 30, 0)).is_none());
    let s = schedule("23:00", "22:00", "Mon", "2h");
    assert!(s.generate_intervals(&at(APRIL_4, Weekday::Mon, 0, 0, 0)).is_none());
    let s = schedule("07:00", "22:00", "Mon", "30m");
    let runs = s.generate_intervals(&at(APRIL_4, Weekday::Mon, 21, 45, 0)).unwrap();
    assert_eq!(runs, vec![at(APRIL_4, Weekday::Mon, 22, 0, 0)]);
}

#[test]
fn schedule_validity_and_spans() {
    let now = at(APRIL_4, Weekday::Mon, 10, 30, 0);
    let s = schedule("07:00", "10:30", "Mon", "2h");
    assert!(!s.is_valid(&now));
    let s = schedule("07:00", "10:31", "Mon", "2h");
    assert!(s.is_valid(&now));
    let s = schedule("07:00", "22:00", "Tue", "2h");
    assert!(!s.is_valid(&now));
    let s = schedule("", "09:00", "Mon", "2h");
    assert!(s.is_valid(&now));

    let spot = Spot {
        uri: "file:///a.mp3".to_string(),
        start: civil(2022, 4, 4, 10, 30, 0),
        end: civil(2022, 4, 4, 10, 30, 0),
        schedules: Vec::new(),
    };
    assert!(spot.is_valid(&now));
    let later = at(APRIL_4, Weekday::Mon, 10, 30, 1);
    assert!(!spot.is_valid(&later));
}

#[test]
fn schedules_that_cannot_generate() {
    let s = schedule("07:00", "22:00", "Mon", "2d");
    assert!(!s.can_generate_intervals());
    let s = schedule("07:00", "22:00", "Mon", "2d");
    let table = TimeTable {
        spots: vec![Spot {
            uri: "x".to_string(),
            start: civil(2022, 4, 1, 0, 0, 0),
            end: civil(2022, 5, 1, 0, 0, 0),
            schedules: vec![s],
        }],
    };
    assert!(!check_table(&table, &at(APRIL_4, Weekday::Mon, 10, 30, 0)));
    let s = Schedule { start: Some((24, 0)), end: None, weekdays: vec![], interval: String::new() };
    assert!(!s.can_generate_intervals());
    let s = schedule("07:00", "22:00", "Mon", "x");
    assert!(s.can_generate_intervals());
    assert_eq!(s.generate_intervals(&at(APRIL_4, Weekday::Mon, 10, 30, 0)).unwrap().len(), 1);
}

#[test]
fn spots_outside_their_span_do_not_run() {
    let now = at((2022, 7, 4), Weekday::Mon, 10, 30, 0);
    let s = r#"<SpotsDoc>
            <spots uri="file:///test.mp3" start="2022-04-01T17:00:00Z" end="2022-06-01T23:59:00Z">
                <schedules start="07:00" end="22:00" weekdays="Mon" interval="2h"/>
            </spots>
        </SpotsDoc>"#;
    let out = load(s, &now);
    assert!(out.spots.is_empty());
    assert!(out.sort().is_empty());
}

#[test]
fn instant_keys_order_times() {
    let a = civil(2022, 4, 4, 10, 30, 0);
    let b = civil(2022, 4, 4, 10, 30, 1);
    let c = civil(2023, 1, 1, 0, 0, 0);
    assert!(a.instant_key() < b.instant_key());
    assert!(b.instant_key() < c.instant_key());
    assert!(a.is_wf());
    assert!(!civil(2022, 13, 1, 0, 0, 0).is_wf());
}
