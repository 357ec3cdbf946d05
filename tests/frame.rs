use battle_instinct::frame::{Framerate, Frames};

#[test]
fn frames_rescale() {
    assert_eq!(Frames::standard(10).as_actual(60), 10);
    assert_eq!(Frames::standard(10).as_actual(144), 24);
    assert_eq!(Frames::standard(120).as_actual(90), 180);
    assert_eq!(Frames::standard(240).as_actual(65535), 65535);
    assert_eq!(Frames::standard(7).as_standard(), 7);
}

#[test]
fn framerate_measures_windows() {
    let mut f = Framerate::new();
    assert_eq!(f.cur(), 60);
    // 60 frames 8 ms apart: the window from the first to the last frame is 472 ms
    for i in 0..60u64 {
        f.tick(i * 8);
    }
    assert_eq!(f.cur(), 60000 / 472);
}

#[test]
fn framerate_never_below_standard() {
    let mut f = Framerate::new();
    for i in 0..60u64 {
        f.tick(i * 40);
    }
    assert_eq!(f.cur(), 60);
}

#[test]
fn framerate_freezes_when_locked() {
    let mut f = Framerate::new();
    let mut t = 0u64;
    for _ in 0..30 * 60 {
        f.tick(t);
        t += 17;
    }
    assert!(f.is_freezed());
    assert_eq!(f.cur(), 60);
    f.tick(t + 1);
    assert!(f.is_freezed());
}

#[test]
fn framerate_unlocked_keeps_measuring() {
    let mut f = Framerate::new();
    let mut t = 0u64;
    for _ in 0..31 * 60 {
        f.tick(t);
        t += 8;
    }
    assert!(!f.is_freezed());
    assert!(f.cur() > 100);
}
