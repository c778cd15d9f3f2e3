use canviz::config::TransitionType;
use canviz::transition::{blend_selector, TransitionEngine};

#[test]
fn first_load_is_instant() {
    let mut e: TransitionEngine<u32> = TransitionEngine::new(TransitionType::Fade, 300);
    e.load(1);
    assert_eq!(e.progress(), (300, 300));
    assert!(!e.is_transitioning());
    assert_eq!(e.current(), Some(&1));
    assert_eq!(e.previous(), None);
}

#[test]
fn fade_progress_over_two_loads() {
    let mut e: TransitionEngine<u32> = TransitionEngine::new(TransitionType::Fade, 300);
    e.load(1);
    e.load(2);
    assert_eq!(e.progress(), (0, 300));
    assert_eq!(e.previous(), Some(&1));
    assert!(e.advance(100));
    assert_eq!(e.progress(), (100, 300));
    assert!(e.advance(100));
    assert_eq!(e.progress(), (200, 300));
    assert!(!e.advance(150));
    assert_eq!(e.progress(), (300, 300));
    assert_eq!(e.previous(), None);
    assert_eq!(e.current(), Some(&2));
}

#[test]
fn advance_after_completion_is_noop() {
    let mut e: TransitionEngine<u32> = TransitionEngine::new(TransitionType::Fade, 300);
    e.load(1);
    e.load(2);
    assert!(!e.advance(300));
    assert!(!e.advance(50));
    assert_eq!(e.progress(), (300, 300));
    assert_eq!(e.current(), Some(&2));
}

#[test]
fn instant_kind_never_blends() {
    let mut e: TransitionEngine<u32> = TransitionEngine::new(TransitionType::Instant, 300);
    e.load(1);
    e.load(2);
    assert!(!e.is_transitioning());
    assert_eq!(e.previous(), None);
    assert_eq!(e.current(), Some(&2));
}

#[test]
fn zero_duration_completes_on_next_advance() {
    let mut e: TransitionEngine<u32> = TransitionEngine::new(TransitionType::Fade, 0);
    e.load(1);
    e.load(2);
    assert_eq!(e.progress(), (0, 1));
    assert!(!e.advance(0));
    assert_eq!(e.progress(), (1, 1));
    assert_eq!(e.previous(), None);
}

#[test]
fn new_load_supersedes_blend_in_progress() {
    let mut e: TransitionEngine<u32> = TransitionEngine::new(TransitionType::Slide, 300);
    e.load(1);
    e.load(2);
    e.advance(100);
    e.load(3);
    assert_eq!(e.progress(), (0, 300));
    assert_eq!(e.previous(), Some(&2));
    assert_eq!(e.current(), Some(&3));
}

#[test]
fn solid_color_replaces_at_once() {
    let mut e: TransitionEngine<u32> = TransitionEngine::new(TransitionType::Fade, 300);
    e.load(1);
    e.load(2);
    e.show_solid(9);
    assert!(!e.is_transitioning());
    assert_eq!(e.previous(), None);
    assert_eq!(e.current(), Some(&9));
}

#[test]
fn blend_selector_buckets() {
    assert_eq!(blend_selector(TransitionType::Instant), 0);
    assert_eq!(blend_selector(TransitionType::Fade), 1);
    assert_eq!(blend_selector(TransitionType::Crossfade), 1);
    assert_eq!(blend_selector(TransitionType::Slide), 2);
    assert_eq!(blend_selector(TransitionType::Wipe), 2);
}
