use pathtracer::application::{AppBuilder, Event, RenderTexture};

#[test]
fn new_keeps_title_and_size() {
    let app = AppBuilder::new("My Raytracer", 600, 400);
    assert_eq!(app.title(), "My Raytracer");
    assert_eq!(app.width(), 600);
    assert_eq!(app.height(), 400);
    assert!(!app.running());
}

#[test]
fn resize_event_takes_positive_extents() {
    let mut app = AppBuilder::new("w", 600, 400);
    app.resize_event(800, 1);
    assert_eq!((app.width(), app.height()), (800, 1));
    app.resize_event(i32::MAX, i32::MAX);
    assert_eq!((app.width(), app.height()), (i32::MAX as u32, i32::MAX as u32));
    assert_eq!(app.title(), "w");
}

#[test]
fn resize_event_ignores_other_extents() {
    let mut app = AppBuilder::new("w", 600, 400);
    app.resize_event(0, 300);
    app.resize_event(300, 0);
    app.resize_event(-1, 300);
    app.resize_event(300, i32::MIN);
    assert_eq!((app.width(), app.height()), (600, 400));
}

#[test]
fn set_running_switches_the_loop() {
    let mut app = AppBuilder::new("w", 1, 1);
    app.set_running(true);
    assert!(app.running());
    app.set_running(false);
    assert!(!app.running());
}

#[test]
fn parse_events_without_events_changes_nothing() {
    let mut app = AppBuilder::new("w", 600, 400);
    app.set_running(true);
    app.parse_events(&vec![]);
    assert!(app.running());
    assert_eq!((app.width(), app.height()), (600, 400));
}

#[test]
fn parse_events_stops_on_quit_and_escape() {
    for stop in [Event::Quit, Event::EscapePressed].iter() {
        let mut app = AppBuilder::new("w", 600, 400);
        app.set_running(true);
        app.parse_events(&vec![Event::Other, *stop, Event::Other]);
        assert!(!app.running());
        assert_eq!((app.width(), app.height()), (600, 400));
    }
}

#[test]
fn parse_events_never_starts_the_loop() {
    let mut app = AppBuilder::new("w", 600, 400);
    app.parse_events(&vec![Event::Other, Event::Resized(5, 5)]);
    assert!(!app.running());
}

#[test]
fn parse_events_takes_the_last_valid_resize() {
    let mut app = AppBuilder::new("w", 600, 400);
    app.set_running(true);
    app.parse_events(&vec![
        Event::Resized(100, 200),
        Event::Other,
        Event::Resized(300, 150),
        Event::Resized(0, 700),
        Event::Resized(-3, -3),
    ]);
    assert_eq!((app.width(), app.height()), (300, 150));
    assert!(app.running());
}

#[test]
fn parse_events_goes_on_after_a_stop() {
    let mut app = AppBuilder::new("w", 600, 400);
    app.set_running(true);
    app.parse_events(&vec![Event::Quit, Event::Resized(64, 32)]);
    assert!(!app.running());
    assert_eq!((app.width(), app.height()), (64, 32));
}

#[test]
fn render_texture_is_filled() {
    let texture = RenderTexture::new(3, 2, 0.5f32);
    assert_eq!(texture.pixels, vec![0.5f32; 6]);
    assert_eq!((texture.width, texture.height, texture.id), (3, 2, 0));
    assert!(texture.is_well_formed());
}

#[test]
fn render_texture_may_be_empty() {
    let texture = RenderTexture::new(0, 9, 1u8);
    assert!(texture.pixels.is_empty());
    assert!(texture.is_well_formed());
}

#[test]
fn render_texture_well_formedness_is_decided() {
    let mut texture = RenderTexture::new(4, 4, 0u8);
    assert!(texture.is_well_formed());
    texture.pixels.pop();
    assert!(!texture.is_well_formed());
    texture.pixels.push(1);
    texture.width = 8;
    texture.height = 2;
    assert!(texture.is_well_formed());
    texture.width = u32::MAX;
    texture.height = u32::MAX;
    assert!(!texture.is_well_formed());
}
