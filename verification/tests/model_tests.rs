use presence::decimal::push_decimal;
use presence::model::{Presence, ShowTime, State, TimePresence, DEFAULT_APP_ID};

fn slide(name: &str, length: Option<u64>) -> TimePresence {
    TimePresence {
        details: format!("{} details", name),
        state: format!("{} state", name),
        tooltip: format!("{} tip", name),
        small_image: "small".to_string(),
        large_image: "large".to_string(),
        show_time: ShowTime::Elapsed,
        length,
    }
}

fn presence_with(slides: Vec<TimePresence>, active: usize) -> Presence {
    Presence {
        application_id: 7,
        name: "p".to_string(),
        elapsed: 0,
        active_presence: active,
        time_presences: slides,
    }
}

#[test]
fn decimal_writes_numbers_like_format() {
    for n in [0usize, 7, 10, 42, 100, 9_999, 1_234_567, usize::MAX] {
        let mut s = "x".to_string();
        push_decimal(&mut s, n);
        assert_eq!(s, format!("x{}", n));
    }
}

#[test]
fn state_new_is_empty() {
    let s = State::new();
    assert_eq!(s.current, 0);
    assert!(s.presences.is_empty());
    assert!(s.update);
}

#[test]
fn time_presence_new_defaults() {
    let t = TimePresence::new();
    assert_eq!(t.state, "Hello world!");
    assert_eq!(t.details, "I like dogs!");
    assert_eq!(t.tooltip, "...I hate cats");
    assert_eq!(t.small_image, "yawny");
    assert_eq!(t.large_image, "wuht");
    assert_eq!(t.show_time, ShowTime::Elapsed);
    assert_eq!(t.length, None);
}

#[test]
fn presence_new_is_named_after_its_position() {
    let mut s = State::new();
    let p = Presence::new(&s);
    assert_eq!(p.name, "Presence 1");
    assert_eq!(p.application_id, DEFAULT_APP_ID);
    assert_eq!(p.application_id, 465995275563958272);
    assert_eq!(p.elapsed, 0);
    assert_eq!(p.active_presence, 0);
    assert!(p.time_presences.is_empty());
    s.presences.push(p.clone());
    s.presences.push(p);
    assert_eq!(Presence::new(&s).name, "Presence 3");
}

#[test]
fn current_is_the_active_slide() {
    let p = presence_with(vec![slide("a", None), slide("b", None)], 1);
    assert_eq!(p.current().unwrap().details, "b details");
}

#[test]
fn current_falls_back_to_the_first_slide() {
    let p = presence_with(vec![slide("a", None), slide("b", None)], 5);
    assert_eq!(p.current().unwrap().details, "a details");
}

#[test]
fn current_of_no_slide_is_none() {
    let p = presence_with(vec![], 0);
    assert!(p.current().is_none());
}
