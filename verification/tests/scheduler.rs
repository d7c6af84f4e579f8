use spark::scheduler::{
    dark, frame_pixel, strip_of, AnimationScheduler, AnimationState, LightAction, Pixel,
    SchedulerEvent, ANIMATION_MS, FRAME_MS, PIXELS_PER_STRIP,
};

fn reference_pixel(hue: u8) -> Pixel {
    let rgb = smart_leds::hsv::hsv2rgb(smart_leds::hsv::Hsv { hue, sat: 255, val: 255 });
    let out = smart_leds::brightness(smart_leds::gamma([rgb].iter().cloned()), 25).next().unwrap();
    Pixel { r: out.r, g: out.g, b: out.b }
}

#[test]
fn a_retrigger_extends_the_running_animation() {
    let t = 10_000;
    let mut scheduler = AnimationScheduler::new();
    assert_eq!(scheduler.step(SchedulerEvent::Trigger, t), LightAction::Keep);
    assert_eq!(scheduler.state(), AnimationState::Running { deadline: t + 3000 });

    assert_eq!(scheduler.step(SchedulerEvent::Trigger, t + 2000), LightAction::Keep);
    assert_eq!(scheduler.state(), AnimationState::Running { deadline: t + 5000 });

    // The timer that was set to the first deadline goes off: nothing is
    // blanked.
    assert_eq!(scheduler.select(false, false, t + 3000), None);
    assert_eq!(scheduler.step(SchedulerEvent::DeadlineElapsed, t + 3000), LightAction::Keep);
    assert_eq!(scheduler.state(), AnimationState::Running { deadline: t + 5000 });
    assert!(matches!(scheduler.step(SchedulerEvent::FrameTick, t + 3000), LightAction::Draw(_)));

    assert_eq!(scheduler.step(SchedulerEvent::DeadlineElapsed, t + 5000), LightAction::Blank);
    assert_eq!(scheduler.state(), AnimationState::Idle);
}

#[test]
fn scheduler_starts_idle_and_dark() {
    let mut scheduler = AnimationScheduler::new();
    assert_eq!(scheduler.state(), AnimationState::Idle);
    assert_eq!(scheduler.hue(), 0);
    assert_eq!(scheduler.select(false, true, 0), None);
    assert_eq!(scheduler.step(SchedulerEvent::FrameTick, 5), LightAction::Keep);
    assert_eq!(scheduler.step(SchedulerEvent::DeadlineElapsed, 5), LightAction::Keep);
    assert_eq!(scheduler.state(), AnimationState::Idle);
    assert_eq!(scheduler.hue(), 0);
}

#[test]
fn a_trigger_wins_over_a_deadline_at_the_same_moment() {
    let mut scheduler = AnimationScheduler::new();
    scheduler.step(SchedulerEvent::Trigger, 0);
    assert_eq!(scheduler.select(true, true, 3000), Some(SchedulerEvent::Trigger));
    assert_eq!(scheduler.step(SchedulerEvent::Trigger, 3000), LightAction::Keep);
    assert_eq!(scheduler.state(), AnimationState::Running { deadline: 6000 });
}

#[test]
fn a_deadline_wins_over_a_frame() {
    let mut scheduler = AnimationScheduler::new();
    scheduler.step(SchedulerEvent::Trigger, 0);
    assert_eq!(scheduler.select(false, true, 2999), Some(SchedulerEvent::FrameTick));
    assert_eq!(scheduler.select(false, false, 2999), None);
    assert_eq!(scheduler.select(false, true, 3000), Some(SchedulerEvent::DeadlineElapsed));
    assert_eq!(scheduler.select(false, false, 3000), Some(SchedulerEvent::DeadlineElapsed));
    // A frame tick that comes after the deadline ends the animation too.
    assert_eq!(scheduler.step(SchedulerEvent::FrameTick, 3000), LightAction::Blank);
    assert_eq!(scheduler.state(), AnimationState::Idle);
}

#[test]
fn a_trigger_wakes_an_idle_scheduler() {
    let scheduler = AnimationScheduler::new();
    assert_eq!(scheduler.select(true, false, 42), Some(SchedulerEvent::Trigger));
}

#[test]
fn frames_advance_the_hue_and_leave_the_deadline() {
    let mut scheduler = AnimationScheduler::new();
    scheduler.step(SchedulerEvent::Trigger, 100);
    let first = scheduler.step(SchedulerEvent::FrameTick, 100 + FRAME_MS);
    assert_eq!(scheduler.hue(), 1);
    assert_eq!(first, LightAction::Draw(Pixel { r: 25, g: 0, b: 0 }));
    let second = scheduler.step(SchedulerEvent::FrameTick, 100 + 2 * FRAME_MS);
    assert_eq!(scheduler.hue(), 2);
    assert_eq!(second, LightAction::Draw(reference_pixel(2)));
    assert_eq!(scheduler.state(), AnimationState::Running { deadline: 100 + ANIMATION_MS });
}

#[test]
fn the_hue_goes_round_and_a_retrigger_keeps_it() {
    let mut scheduler = AnimationScheduler::new();
    let mut now = 0;
    scheduler.step(SchedulerEvent::Trigger, now);
    for _ in 0..255 {
        now += 10;
        scheduler.step(SchedulerEvent::Trigger, now);
        scheduler.step(SchedulerEvent::FrameTick, now);
    }
    assert_eq!(scheduler.hue(), 255);
    scheduler.step(SchedulerEvent::Trigger, now);
    assert_eq!(scheduler.hue(), 255);
    assert_eq!(
        scheduler.step(SchedulerEvent::FrameTick, now + 10),
        LightAction::Draw(reference_pixel(0))
    );
    assert_eq!(scheduler.hue(), 0);
}

#[test]
fn the_hue_survives_the_end_of_an_animation() {
    let mut scheduler = AnimationScheduler::new();
    scheduler.step(SchedulerEvent::Trigger, 0);
    scheduler.step(SchedulerEvent::FrameTick, 10);
    scheduler.step(SchedulerEvent::FrameTick, 20);
    assert_eq!(scheduler.step(SchedulerEvent::DeadlineElapsed, 3000), LightAction::Blank);
    scheduler.step(SchedulerEvent::Trigger, 4000);
    assert_eq!(scheduler.hue(), 2);
}

#[test]
fn frame_colours_are_those_of_the_led_library() {
    for hue in 0..=255u8 {
        assert_eq!(frame_pixel(hue), reference_pixel(hue), "hue {}", hue);
    }
    assert_eq!(frame_pixel(0), Pixel { r: 25, g: 0, b: 0 });
    assert_eq!(frame_pixel(85), Pixel { r: 0, g: 25, b: 0 });
    assert_eq!(frame_pixel(170), Pixel { r: 0, g: 0, b: 25 });
    // Between the primaries the second channel comes up, after gamma and
    // dimming.
    assert_eq!(frame_pixel(21), Pixel { r: 25, g: 3, b: 0 });
    assert_eq!(frame_pixel(30), Pixel { r: 25, g: 9, b: 0 });
    assert_eq!(frame_pixel(64), Pixel { r: 3, g: 25, b: 0 });
    assert_eq!(frame_pixel(200), Pixel { r: 9, g: 0, b: 25 });
}

#[test]
fn a_strip_shows_one_colour() {
    let pixel = Pixel { r: 1, g: 2, b: 3 };
    let strip = strip_of(pixel);
    assert_eq!(strip.len(), PIXELS_PER_STRIP);
    assert_eq!(strip, vec![pixel; 8]);
    assert_eq!(strip_of(dark()), vec![Pixel { r: 0, g: 0, b: 0 }; 8]);
}
