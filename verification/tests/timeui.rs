use chrono::Timelike;
use imag::timeui::Time;

#[test]
fn test_valid() {
    let s = "2016-12-12T20:01:02";
    let t = Time::parse(s);

    assert!(t.is_some());
    let t = t.unwrap();

    assert_eq!(20, t.hour());
    assert_eq!(1, t.minute());
    assert_eq!(2, t.second());
}

#[test]
fn test_valid_without_sec() {
    let s = "2016-12-12T20:01";
    let t = Time::parse(s);

    assert!(t.is_some());
    let t = t.unwrap();

    assert_eq!(20, t.hour());
    assert_eq!(1, t.minute());
    assert_eq!(0, t.second());
}

#[test]
fn test_valid_without_min() {
    let s = "2016-12-12T20";
    let t = Time::parse(s);

    assert!(t.is_some());
    let t = t.unwrap();

    assert_eq!(20, t.hour());
    assert_eq!(0, t.minute());
    assert_eq!(0, t.second());
}

#[test]
fn test_invalid() {
    assert!(Time::parse("2015-12-12T").is_none());
    assert!(Time::parse("2015-12-12T200").is_none());
    assert!(Time::parse("2015-12-12T20-20").is_none());
    assert!(Time::parse("2015-12-12T20:200").is_none());
    assert!(Time::parse("2015-12-12T20:20:200").is_none());
    assert!(Time::parse("2015-12-12T20:20:").is_none());
    assert!(Time::parse("2015-12-12T20:").is_none());
    assert!(Time::parse("2015-12-12T2:20:21").is_none());
    assert!(Time::parse("2015-12-12T2:2:20").is_none());
    assert!(Time::parse("2015-12-12T2:2:2").is_none());
}

#[test]
fn parse_needs_the_date() {
    assert!(Time::parse("").is_none());
    assert!(Time::parse("20:01:02").is_none());
    assert!(Time::parse("T20:01:02").is_none());
    assert!(Time::parse("2016-12-12").is_none());
    assert!(Time::parse("2016-12-1220:01").is_none());
    assert!(Time::parse("2016/12/12T20:01").is_none());
    assert!(Time::parse("2016-12-12t20:01").is_none());
    assert!(Time::parse("2016-12-12T20:01:02 ").is_none());
    assert!(Time::parse("2016-12-12T２０").is_none());
}

#[test]
fn parse_reads_the_end_of_the_text() {
    let t = Time::parse("due on 2016-12-12T07:08:09").unwrap();
    assert_eq!((t.hour(), t.minute(), t.second()), (7, 8, 9));
    let t = Time::parse("ä 2016-12-12T99:98").unwrap();
    assert_eq!((t.hour(), t.minute(), t.second()), (99, 98, 0));
    assert!(!t.is_valid());
}

#[test]
fn time_keeps_what_it_was_given() {
    let t = Time::new(1, 2, 3);
    assert_eq!((t.hour(), t.minute(), t.second()), (1, 2, 3));
    assert!(t.is_valid());
    assert!(!Time::new(24, 0, 0).is_valid());
    assert!(!Time::new(0, 60, 0).is_valid());
    assert!(!Time::new(0, 0, 60).is_valid());
}

#[test]
fn time_becomes_a_time_of_the_clock() {
    let n = Time::new(20, 1, 2).into_naive_time().unwrap();
    assert_eq!((n.hour(), n.minute(), n.second()), (20, 1, 2));
    assert!(Time::new(23, 59, 59).into_naive_time().is_some());
    assert!(Time::new(24, 0, 0).into_naive_time().is_none());
    assert!(Time::new(0, 60, 0).into_naive_time().is_none());
    assert!(Time::new(0, 0, 60).into_naive_time().is_none());
}
