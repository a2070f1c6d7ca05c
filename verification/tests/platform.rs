use std::time::{Duration, Instant};
use synarion::platform::events::Event;
use synarion::platform::time::Timer;
use synarion::platform::window::WindowConfig;

#[test]
fn window_config_default_values() {
    let config = WindowConfig::default();
    assert_eq!(config.title, "Synarion Engine");
    assert_eq!(config.width, 1280);
    assert_eq!(config.height, 720);
    assert!(config.resizable);
    assert!(config.vsync);
}

#[test]
fn event_variants_carry_their_data() {
    let resized = Event::Resized { width: 800, height: 600 };
    assert!(matches!(resized.clone(), Event::Resized { width: 800, height: 600 }));
    assert!(matches!(Event::Focused(true), Event::Focused(true)));
    assert!(matches!(Event::CloseRequested, Event::CloseRequested));
    assert!(matches!(Event::RedrawRequested, Event::RedrawRequested));
}

#[test]
fn timer_counts_from_its_start() {
    let earlier = Instant::now();
    let timer = Timer::starting_at(earlier);
    let seen = timer.elapsed();
    assert!(seen <= earlier.elapsed());
    let copy = timer.clone();
    assert!(copy.elapsed() >= seen);
}

#[test]
fn timer_elapsed_does_not_run_backwards() {
    let mut timer = Timer::new();
    let a = timer.elapsed();
    let b = timer.elapsed();
    assert!(b >= a);
    timer.reset();
    assert!(timer.elapsed() < Duration::from_secs(3600));
    let mut other = Timer::default();
    let mark = Instant::now();
    other.restart_at(mark);
    assert!(other.elapsed() <= mark.elapsed());
}
