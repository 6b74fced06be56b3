use micast_broadcaster::scheduler::parser::custom_serde::hourminutes;
use micast_broadcaster::scheduler::parser::custom_serde::hourminutes::HourMinuteError;
use micast_broadcaster::scheduler::parser::custom_serde::weekaler;
use micast_broadcaster::weekday::Weekday;

/// The value of attribute `name` of the first element of an XML text.
fn attribute(xml: &str, name: &str) -> String {
    let mut reader = quick_xml::Reader::from_str(xml);
    loop {
        match reader.read_event().unwrap() {
            quick_xml::events::Event::Empty(e) | quick_xml::events::Event::Start(e) => {
                return e.try_get_attribute(name).unwrap().unwrap().value.to_string();
            }
            quick_xml::events::Event::Eof => panic!("no element in {}", xml),
            _ => {}
        }
    }
}

/// The element that a test structure with one time attribute is written as.
fn start_element(start: Option<(u16, u16)>) -> Result<String, HourMinuteError> {
    hourminutes::serialize(&start).map(|s| format!(r#"<TestStruct start="{}"/>"#, s))
}

/// The time attribute of a test structure read from its element.
fn read_start(xml: &str) -> Result<Option<(u16, u16)>, HourMinuteError> {
    hourminutes::deserialize(&attribute(xml, "start"))
}

fn weekdays_element(days: &Vec<Weekday>) -> String {
    format!(r#"<TestStruct weekdays="{}"/>"#, weekaler::serialize(days))
}

fn read_weekdays(xml: &str) -> Vec<Weekday> {
    let text = attribute(xml, "weekdays");
    assert!(weekaler::is_valid(&text));
    weekaler::deserialize(&text)
}

#[test]
fn hourminutes_serialize() {
    let out = start_element(Some((7, 33))).unwrap();
    assert_eq!(out, r#"<TestStruct start="07:33"/>"#);

    let out = start_element(Some((10, 20))).unwrap();
    assert_eq!(out, r#"<TestStruct start="10:20"/>"#);

    let out = start_element(Some((1, 1))).unwrap();
    assert_eq!(out, r#"<TestStruct start="01:01"/>"#);
}

#[test]
fn hourminutes_deserialize() {
    let out = read_start(r#"<TestStruct start="10:20"/>"#).unwrap();
    assert_eq!(out, Some((10, 20)));

    let out = read_start(r#"<TestStruct start="23:59"/>"#).unwrap();
    assert_eq!(out, Some((23, 59)));
}

#[test]
fn hourminutes_deserialize_special_case() {
    let out = read_start(r#"<TestStruct start="09:20"/>"#).unwrap();
    assert_eq!(out, Some((9, 20)));
}

#[test]
fn hourminutes_deserialize_error_handling() {
    let out = read_start(r#"<TestStruct start=":20"/>"#);
    assert!(out.is_err());

    let out = read_start(r#"<TestStruct start=""/>"#);
    assert_eq!(out.unwrap(), None);

    let out = read_start(r#"<TestStruct start="2:"/>"#);
    assert!(out.is_err());

    let out = read_start(r#"<TestStruct start="24:20"/>"#);
    assert!(out.is_err());

    let out = read_start(r#"<TestStruct start="23:60"/>"#);
    assert!(out.is_err());
}

#[test]
fn hourminutes_serialize_error_handling() {
    let out = start_element(Some((0, 70)));
    assert!(out.is_err());

    let out = start_element(Some((24, 20)));
    assert!(out.is_err());
}

#[test]
fn hourminutes_error_variants() {
    assert_eq!(hourminutes::deserialize("1:2:3"), Err(HourMinuteError::InvalidFormat));
    assert_eq!(hourminutes::deserialize("720"), Err(HourMinuteError::InvalidFormat));
    assert_eq!(hourminutes::deserialize(":20"), Err(HourMinuteError::HourEmpty));
    assert_eq!(hourminutes::deserialize("2:"), Err(HourMinuteError::MinuteEmpty));
    assert_eq!(hourminutes::deserialize("a1:20"), Err(HourMinuteError::HourNotANumber));
    assert_eq!(hourminutes::deserialize("70000:20"), Err(HourMinuteError::HourNotANumber));
    assert_eq!(hourminutes::deserialize("10:x"), Err(HourMinuteError::MinuteNotANumber));
    assert_eq!(hourminutes::deserialize("24:20"), Err(HourMinuteError::HourOutOfRange(24)));
    assert_eq!(hourminutes::deserialize("23:60"), Err(HourMinuteError::MinuteOutOfRange(60)));
    assert_eq!(hourminutes::serialize(&Some((0, 70))), Err(HourMinuteError::MinuteOutOfRange(70)));
    assert_eq!(hourminutes::serialize(&Some((24, 20))), Err(HourMinuteError::HourOutOfRange(24)));
    assert_eq!(hourminutes::serialize(&None), Ok(String::new()));
}

#[test]
fn hourminutes_roundtrip_on_values() {
    for h in 0u16..24 {
        for m in 0u16..60 {
            let text = hourminutes::serialize(&Some((h, m))).unwrap();
            assert_eq!(text.len(), 5);
            assert_eq!(hourminutes::deserialize(&text), Ok(Some((h, m))));
        }
    }
    assert_eq!(hourminutes::deserialize(""), Ok(None));
    assert_eq!(hourminutes::deserialize("7:5"), Ok(Some((7, 5))));
    assert_eq!(hourminutes::serialize(&Some((7, 5))).unwrap(), "07:05");
}

#[test]
fn weekday_serialize() {
    let out = weekdays_element(&vec![Weekday::Mon, Weekday::Tue, Weekday::Fri]);
    assert_eq!(out, r#"<TestStruct weekdays="Mon-Tue,Fri"/>"#);

    let out = weekdays_element(&vec![Weekday::Mon]);
    assert_eq!(out, r#"<TestStruct weekdays="Mon"/>"#);

    let out = weekdays_element(&vec![Weekday::Mon, Weekday::Wed, Weekday::Fri]);
    assert_eq!(out, r#"<TestStruct weekdays="Mon,Wed,Fri"/>"#);

    let out = weekdays_element(&vec![Weekday::Mon, Weekday::Tue, Weekday::Wed, Weekday::Fri]);
    assert_eq!(out, r#"<TestStruct weekdays="Mon-Wed,Fri"/>"#);
}

#[test]
fn weekday_deserialize() {
    let out = read_weekdays(r#"<TestStruct weekdays="Mon-Fri"/>"#);
    assert_eq!(out, vec![Weekday::Mon, Weekday::Tue, Weekday::Wed, Weekday::Thu, Weekday::Fri]);

    let out = read_weekdays(r#"<TestStruct weekdays="Fri"/>"#);
    assert_eq!(out, vec![Weekday::Fri]);

    let out = read_weekdays(r#"<TestStruct weekdays="Mon-Wed,Fri"/>"#);
    assert_eq!(out, vec![Weekday::Mon, Weekday::Tue, Weekday::Wed, Weekday::Fri]);

    let out = read_weekdays(r#"<TestStruct weekdays="Mon,Wed,Fri"/>"#);
    assert_eq!(out, vec![Weekday::Mon, Weekday::Wed, Weekday::Fri]);
}

#[test]
fn weekday_deserialize_special_case() {
    let out = read_weekdays(r#"<TestStruct weekdays="Sun-Mon,Fri"/>"#);
    assert_eq!(out, vec![Weekday::Sun, Weekday::Mon, Weekday::Fri]);
}

#[test]
fn weekday_empty_list_is_whole_week() {
    assert_eq!(weekaler::serialize(&Vec::new()), "Mon-Sun");
    let days = weekaler::deserialize("Mon-Sun");
    assert_eq!(days.len(), 7);
    assert_eq!(weekaler::deserialize(""), Vec::<Weekday>::new());
}

#[test]
fn weekday_roundtrip_on_values() {
    let lists = vec![
        vec![Weekday::Sun, Weekday::Mon, Weekday::Fri],
        vec![Weekday::Fri, Weekday::Sat, Weekday::Sun, Weekday::Mon],
        vec![Weekday::Wed],
        vec![Weekday::Tue, Weekday::Thu, Weekday::Sat],
    ];
    for days in lists {
        let text = weekaler::serialize(&days);
        assert!(weekaler::is_valid(&text));
        let back = weekaler::deserialize(&text);
        for d in &days {
            assert!(back.contains(d));
        }
        for d in &back {
            assert!(days.contains(d));
        }
    }
    assert_eq!(weekaler::serialize(&vec![Weekday::Sun, Weekday::Mon, Weekday::Fri]), "Sun-Mon,Fri");
}

#[test]
fn weekday_long_and_lower_case_names() {
    assert!(weekaler::is_valid("monday,FRI"));
    assert_eq!(weekaler::deserialize("monday,FRI"), vec![Weekday::Mon, Weekday::Fri]);
    assert_eq!(weekaler::deserialize("Sat-tuesday"), vec![Weekday::Sat, Weekday::Sun, Weekday::Mon, Weekday::Tue]);
}

#[test]
fn weekday_invalid_texts() {
    assert!(!weekaler::is_valid("Mon,Funday"));
    assert!(!weekaler::is_valid("Mon-"));
    assert!(!weekaler::is_valid(","));
    assert!(weekaler::is_valid(""));
}

#[test]
fn weekday_roundtrip_names_each_day_once() {
    let days = vec![Weekday::Mon, Weekday::Tue, Weekday::Mon, Weekday::Sun, Weekday::Tue];
    let text = weekaler::serialize(&days);
    let back = weekaler::deserialize(&text);
    assert_eq!(back, vec![Weekday::Mon, Weekday::Tue, Weekday::Sun]);
    for (i, a) in back.iter().enumerate() {
        for b in back.iter().skip(i + 1) {
            assert_ne!(a, b);
        }
    }
}
