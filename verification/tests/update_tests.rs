use presence::model::{Presence, ShowTime, State, TimePresence};
use presence::update::{byte_len, str_opt, AppClient, Shown, DISCORD_CHAR_LIMIT};

fn slide(name: &str, show_time: ShowTime, length: Option<u64>) -> TimePresence {
    TimePresence {
        details: format!("{} details", name),
        state: format!("{} state", name),
        tooltip: format!("{} tip", name),
        small_image: format!("{}-small", name),
        large_image: format!("{}-large", name),
        show_time,
        length,
    }
}

fn presence_with(slides: Vec<TimePresence>, active: usize, elapsed: u64) -> Presence {
    Presence {
        application_id: 99,
        name: "p".to_string(),
        elapsed,
        active_presence: active,
        time_presences: slides,
    }
}

fn shown(p: &Presence, i: usize) -> Shown {
    Shown {
        application_id: p.application_id,
        active_presence: p.active_presence,
        elapsed: p.elapsed,
        slide_count: p.time_presences.len(),
        slide: p.time_presences[i].clone(),
    }
}

#[test]
fn str_opt_drops_short_texts() {
    assert_eq!(DISCORD_CHAR_LIMIT, 2);
    assert_eq!(str_opt("".to_string(), 2), None);
    assert_eq!(str_opt("a".to_string(), 2), None);
    assert_eq!(str_opt("ab".to_string(), 2), Some("ab".to_string()));
    assert_eq!(str_opt("abc".to_string(), 0), Some("abc".to_string()));
}

#[test]
fn str_opt_counts_bytes() {
    assert_eq!(byte_len("é"), 2);
    assert_eq!(str_opt("é".to_string(), 2), Some("é".to_string()));
    assert_eq!(str_opt("é".to_string(), 3), None);
}

#[test]
fn advance_adds_the_step_on_a_timed_slide() {
    let mut p = presence_with(vec![slide("a", ShowTime::Elapsed, Some(5000)), slide("b", ShowTime::Elapsed, None)], 0, 1000);
    p.advance(1000);
    assert_eq!(p.elapsed, 2000);
    assert_eq!(p.active_presence, 0);
}

#[test]
fn advance_moves_on_after_the_length() {
    let mut p = presence_with(vec![slide("a", ShowTime::Elapsed, Some(2000)), slide("b", ShowTime::Elapsed, None)], 0, 2000);
    p.advance(1000);
    assert_eq!(p.elapsed, 0);
    assert_eq!(p.active_presence, 1);
}

#[test]
fn advance_wraps_to_the_first_slide() {
    let mut p = presence_with(vec![slide("a", ShowTime::Elapsed, None), slide("b", ShowTime::Elapsed, Some(500))], 1, 0);
    p.advance(1000);
    assert_eq!(p.active_presence, 0);
    assert_eq!(p.elapsed, 0);
}

#[test]
fn advance_keeps_a_slide_without_length() {
    let mut p = presence_with(vec![slide("a", ShowTime::Elapsed, None)], 0, 700);
    p.advance(1000);
    assert_eq!(p.elapsed, 700);
    assert_eq!(p.active_presence, 0);
}

#[test]
fn advance_caps_the_elapsed_time() {
    let mut p = presence_with(vec![slide("a", ShowTime::Elapsed, Some(u64::MAX))], 0, u64::MAX - 10);
    p.advance(1000);
    assert_eq!(p.elapsed, u64::MAX);
    assert_eq!(p.active_presence, 0);
}

#[test]
fn advance_out_of_range_uses_the_first_slide() {
    let mut p = presence_with(vec![slide("a", ShowTime::Elapsed, Some(100)), slide("b", ShowTime::Elapsed, None)], 4, 0);
    p.advance(1000);
    assert_eq!(p.active_presence, 1);
    assert_eq!(p.elapsed, 0);
}

#[test]
fn rich_presence_of_an_elapsed_slide() {
    let p = presence_with(vec![slide("a", ShowTime::Elapsed, Some(60_000))], 0, 4_000);
    let r = shown(&p, 0).rich_presence(1_000_000);
    assert_eq!(r.details, Some("a details".to_string()));
    assert_eq!(r.state, Some("a state".to_string()));
    assert_eq!(r.start_time, Some(996_000));
    assert_eq!(r.end_time, None);
    assert_eq!(r.large_image_key, Some("a-large".to_string()));
    assert_eq!(r.small_image_key, Some("a-small".to_string()));
    assert_eq!(r.large_image_text, Some("a tip".to_string()));
    assert_eq!(r.small_image_text, Some("a tip".to_string()));
    assert_eq!(r.party_id, None);
    assert_eq!(r.party_size, None);
    assert_eq!(r.party_max, None);
    assert_eq!(r.join_secret, None);
    assert_eq!(r.spectate_secret, None);
}

#[test]
fn rich_presence_of_a_remaining_slide_in_a_slideshow() {
    let p = presence_with(
        vec![slide("a", ShowTime::Hidden, None), slide("b", ShowTime::Remaining, Some(60_000)), slide("c", ShowTime::Elapsed, None)],
        1,
        10_000,
    );
    let r = shown(&p, 1).rich_presence(1_000_000);
    assert_eq!(r.start_time, Some(990_000));
    assert_eq!(r.end_time, Some(1_050_000));
    assert_eq!(r.party_size, Some(2));
    assert_eq!(r.party_max, Some(3));
}

#[test]
fn rich_presence_of_a_hidden_time_and_short_texts() {
    let mut t = slide("a", ShowTime::Hidden, Some(5));
    t.details = "x".to_string();
    t.tooltip = String::new();
    let p = presence_with(vec![t], 0, 0);
    let r = shown(&p, 0).rich_presence(5);
    assert_eq!(r.start_time, None);
    assert_eq!(r.end_time, None);
    assert_eq!(r.details, None);
    assert_eq!(r.large_image_text, None);
    assert_eq!(r.small_image_text, None);
    assert_eq!(r.state, Some("a state".to_string()));
}

#[test]
fn tick_without_presences_does_nothing() {
    let mut s = State::new();
    assert!(s.tick(1000).is_none());
    assert!(s.presences.is_empty());
}

#[test]
fn tick_with_out_of_range_current_does_nothing() {
    let mut s = State::new();
    s.presences.push(presence_with(vec![slide("a", ShowTime::Elapsed, Some(10))], 0, 0));
    s.current = 3;
    assert!(s.tick(1000).is_none());
    assert_eq!(s.presences[0].elapsed, 0);
}

#[test]
fn tick_without_slides_is_none() {
    let mut s = State::new();
    s.presences.push(presence_with(vec![], 0, 0));
    assert!(s.tick(1000).is_none());
}

#[test]
fn tick_advances_and_reports_the_current_presence() {
    let mut s = State::new();
    s.presences.push(presence_with(vec![slide("x", ShowTime::Elapsed, None)], 0, 0));
    s.presences.push(presence_with(
        vec![slide("a", ShowTime::Elapsed, Some(1500)), slide("b", ShowTime::Elapsed, Some(1500))],
        0,
        1000,
    ));
    s.current = 1;
    let u = s.tick(1000).unwrap();
    assert_eq!(u.application_id, 99);
    assert_eq!(u.active_presence, 1);
    assert_eq!(u.elapsed, 0);
    assert_eq!(u.slide_count, 2);
    assert_eq!(u.slide.details, "b details");
    let r = u.rich_presence(10_000);
    assert_eq!(r.details, Some("b details".to_string()));
    assert_eq!(r.start_time, Some(10_000));
    assert_eq!(r.party_size, Some(2));
    assert_eq!(r.party_max, Some(2));
    assert_eq!(s.presences[1].active_presence, 1);
    assert_eq!(s.presences[0].elapsed, 0);
    let u = s.tick(1000).unwrap();
    assert_eq!(u.elapsed, 1000);
    assert_eq!(u.rich_presence(11_000).start_time, Some(10_000));
}

#[test]
fn app_client_connects_once_per_application() {
    let mut a: AppClient<u32> = AppClient::new();
    assert!(a.client.is_none());
    assert!(a.new_client(5));
    assert!(a.needs_init(5));
    assert!(a.prepare_client(5));
    a.attach(Some(1));
    assert!(!a.new_client(5));
    assert!(!a.needs_init(5));
    assert!(!a.prepare_client(5));
    assert_eq!(a.client, Some(1));
    assert!(a.needs_init(6));
    assert!(a.prepare_client(6));
    assert_eq!(a.client, None);
    assert_eq!(a.c_app_id, Some(6));
}

#[test]
fn app_client_retries_a_failed_connection() {
    let mut a: AppClient<u32> = AppClient::new();
    assert!(a.prepare_client(5));
    a.attach(None);
    assert!(!a.new_client(5));
    assert!(a.needs_init(5));
    assert!(a.prepare_client(5));
}
