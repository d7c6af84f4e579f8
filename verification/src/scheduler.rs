//! The light's animation scheduler.
//!
//! A trigger starts a timed animation or extends the one that runs. While it
//! runs, each frame tick advances the hue; when the deadline passes, every
//! pixel is blanked. Where a trigger and an expired deadline stand at the same
//! moment, the trigger wins.

use vstd::prelude::*;

verus! {

/// How long one trigger keeps the animation running, in milliseconds.
pub const ANIMATION_MS: u64 = 3000;

/// Time between two frames, in milliseconds.
pub const FRAME_MS: u64 = 10;

/// Pixels on one strip.
pub const PIXELS_PER_STRIP: usize = 8;

/// Saturation and value of every frame's colour.
pub const FULL: u8 = 255;

/// Brightness level that every frame is limited to.
pub const FRAME_BRIGHTNESS: u8 = 25;

/// One pixel, by its three channels.
#[derive(Clone, Copy, Debug, PartialEq, Eq, Structural)]
pub struct Pixel {
    pub r: u8,
    pub g: u8,
    pub b: u8,
}

/// The pixel that `smart_leds::hsv::hsv2rgb` gives for a hue, a saturation
/// and a value.
pub uninterp spec fn hsv_to_rgb(hue: u8, sat: u8, val: u8) -> Pixel;

/// The pixel that `smart_leds::gamma` turns a pixel into.
pub uninterp spec fn gamma_of(pixel: Pixel) -> Pixel;

/// One channel limited to a brightness level.
pub open spec fn dimmed_channel(channel: u8, level: u8) -> u8 {
    (channel as int * (level as int + 1) / 256) as u8
}

/// A pixel with each channel limited to a brightness level.
pub open spec fn dimmed(pixel: Pixel, level: u8) -> Pixel {
    Pixel {
        r: dimmed_channel(pixel.r, level),
        g: dimmed_channel(pixel.g, level),
        b: dimmed_channel(pixel.b, level),
    }
}

/// The colour of the frame at `hue`: full saturation and value, gamma
/// corrected, limited in brightness.
pub open spec fn spec_frame_pixel(hue: u8) -> Pixel {
    dimmed(gamma_of(hsv_to_rgb(hue, FULL, FULL)), FRAME_BRIGHTNESS)
}

/// Calls `smart_leds::hsv::hsv2rgb`. Trusted: the result is a function of the
/// three arguments alone, named `hsv_to_rgb`.
#[verifier::external_body]
fn hsv_pixel(hue: u8, sat: u8, val: u8) -> (out: Pixel)
    ensures
        out == hsv_to_rgb(hue, sat, val),
{
    let rgb = smart_leds::hsv::hsv2rgb(smart_leds::hsv::Hsv { hue, sat, val });
    Pixel { r: rgb.r, g: rgb.g, b: rgb.b }
}

/// Calls `smart_leds::gamma` on one pixel. Trusted: the adaptor yields one
/// pixel for the one it is given, a function of that pixel alone, named
/// `gamma_of`.
#[verifier::external_body]
fn gamma_pixel(pixel: Pixel) -> (out: Pixel)
    ensures
        out == gamma_of(pixel),
{
    let rgb = smart_leds::RGB8 { r: pixel.r, g: pixel.g, b: pixel.b };
    let out = smart_leds::gamma(core::iter::once(rgb)).next().unwrap();
    Pixel { r: out.r, g: out.g, b: out.b }
}

/// Calls `smart_leds::brightness` on one pixel. Trusted: the adaptor yields
/// one pixel for the one it is given, each channel multiplied by the level
/// plus one and divided by 256, rounded down.
#[verifier::external_body]
fn dim_pixel(pixel: Pixel, level: u8) -> (out: Pixel)
    ensures
        out == dimmed(pixel, level),
{
    let rgb = smart_leds::RGB8 { r: pixel.r, g: pixel.g, b: pixel.b };
    let out = smart_leds::brightness(core::iter::once(rgb), level).next().unwrap();
    Pixel { r: out.r, g: out.g, b: out.b }
}

/// The colour of the frame at `hue`.
pub fn frame_pixel(hue: u8) -> (pixel: Pixel)
    ensures
        pixel == spec_frame_pixel(hue),
{
    dim_pixel(gamma_pixel(hsv_pixel(hue, FULL, FULL)), FRAME_BRIGHTNESS)
}

/// One strip's buffer with every pixel at `pixel`.
pub fn strip_of(pixel: Pixel) -> (strip: Vec<Pixel>)
    ensures
        strip@ == Seq::new(PIXELS_PER_STRIP as nat, |i: int| pixel),
{
    let mut strip: Vec<Pixel> = Vec::new();
    let mut i: usize = 0;
    while i < PIXELS_PER_STRIP
        invariant
            i <= PIXELS_PER_STRIP,
            strip@ == Seq::new(i as nat, |k: int| pixel),
        decreases PIXELS_PER_STRIP - i,
    {
        strip.push(pixel);
        i += 1;
        assert(strip@ =~= Seq::new(i as nat, |k: int| pixel));
    }
    strip
}

/// The dark pixel.
pub open spec fn spec_dark() -> Pixel {
    Pixel { r: 0, g: 0, b: 0 }
}

#[verifier::when_used_as_spec(spec_dark)]
pub fn dark() -> (pixel: Pixel)
    ensures
        pixel == spec_dark(),
{
    Pixel { r: 0, g: 0, b: 0 }
}

/// Whether an animation runs, and until when.
#[derive(Clone, Copy, Debug, PartialEq, Eq, Structural)]
pub enum AnimationState {
    Idle,
    Running {
        /// Absolute time at which the animation ends, in milliseconds.
        deadline: u64,
    },
}

/// What the scheduler is woken by.
#[derive(Clone, Copy, Debug, PartialEq, Eq, Structural)]
pub enum SchedulerEvent {
    /// A trigger signal arrived.
    Trigger,
    /// The timer set to the deadline went off.
    DeadlineElapsed,
    /// The frame timer went off.
    FrameTick,
}

/// What the light does after an event.
#[derive(Clone, Copy, Debug, PartialEq, Eq, Structural)]
pub enum LightAction {
    /// The pixels stay as they are.
    Keep,
    /// Every pixel shows this colour.
    Draw(Pixel),
    /// Every pixel goes dark.
    Blank,
}

/// State and hue of the scheduler.
pub struct SchedulerView {
    pub state: AnimationState,
    pub hue: u8,
}

/// The state after an event at time `now`.
pub open spec fn state_after(state: AnimationState, event: SchedulerEvent, now: u64)
    -> AnimationState {
    match (state, event) {
        (_, SchedulerEvent::Trigger) => AnimationState::Running {
            deadline: (now + ANIMATION_MS) as u64,
        },
        (AnimationState::Idle, _) => AnimationState::Idle,
        (AnimationState::Running { deadline }, _) => if now >= deadline {
            AnimationState::Idle
        } else {
            state
        },
    }
}

/// The hue after an event at time `now`: a frame tick before the deadline
/// moves it one step on, round the circle; nothing else moves it.
pub open spec fn hue_after(state: AnimationState, hue: u8, event: SchedulerEvent, now: u64) -> u8 {
    match (state, event) {
        (AnimationState::Running { deadline }, SchedulerEvent::FrameTick) => if now < deadline {
            if hue == 255 {
                0u8
            } else {
                (hue + 1) as u8
            }
        } else {
            hue
        },
        _ => hue,
    }
}

/// What the light does for an event at time `now`.
pub open spec fn action_after(state: AnimationState, hue: u8, event: SchedulerEvent, now: u64)
    -> LightAction {
    match (state, event) {
        (_, SchedulerEvent::Trigger) => LightAction::Keep,
        (AnimationState::Idle, _) => LightAction::Keep,
        (AnimationState::Running { deadline }, SchedulerEvent::DeadlineElapsed) => if now
            >= deadline {
            LightAction::Blank
        } else {
            LightAction::Keep
        },
        (AnimationState::Running { deadline }, SchedulerEvent::FrameTick) => if now >= deadline {
            LightAction::Blank
        } else {
            LightAction::Draw(spec_frame_pixel(hue_after(state, hue, event, now)))
        },
    }
}

/// The event to handle where several stand at once: a trigger before an
/// expired deadline, an expired deadline before a frame.
pub open spec fn spec_select(
    state: AnimationState,
    trigger_pending: bool,
    frame_due: bool,
    now: u64,
) -> Option<SchedulerEvent> {
    if trigger_pending {
        Some(SchedulerEvent::Trigger)
    } else {
        match state {
            AnimationState::Idle => None,
            AnimationState::Running { deadline } => if now >= deadline {
                Some(SchedulerEvent::DeadlineElapsed)
            } else if frame_due {
                Some(SchedulerEvent::FrameTick)
            } else {
                None
            },
        }
    }
}

/// The animation scheduler.
#[derive(Clone, Copy, Debug, PartialEq, Eq)]
pub struct AnimationScheduler {
    state: AnimationState,
    hue: u8,
}

impl View for AnimationScheduler {
    type V = SchedulerView;

    closed spec fn view(&self) -> SchedulerView {
        SchedulerView { state: self.state, hue: self.hue }
    }
}

impl AnimationScheduler {
    /// An idle scheduler at hue 0.
    pub fn new() -> (scheduler: Self)
        ensures
            scheduler@ == (SchedulerView { state: AnimationState::Idle, hue: 0 }),
    {
        AnimationScheduler { state: AnimationState::Idle, hue: 0 }
    }

    pub fn state(&self) -> (state: AnimationState)
        ensures
            state == self@.state,
    {
        self.state
    }

    pub fn hue(&self) -> (hue: u8)
        ensures
            hue == self@.hue,
    {
        self.hue
    }

    /// Picks the event to handle at `now`, given whether a trigger signal is
    /// pending and whether the frame timer has gone off. None where the
    /// scheduler has nothing to do but wait.
    pub fn select(&self, trigger_pending: bool, frame_due: bool, now: u64) -> (event: Option<
        SchedulerEvent,
    >)
        ensures
            event == spec_select(self@.state, trigger_pending, frame_due, now),
    {
        if trigger_pending {
            Some(SchedulerEvent::Trigger)
        } else {
            match self.state {
                AnimationState::Idle => None,
                AnimationState::Running { deadline } => {
                    if now >= deadline {
                        Some(SchedulerEvent::DeadlineElapsed)
                    } else if frame_due {
                        Some(SchedulerEvent::FrameTick)
                    } else {
                        None
                    }
                },
            }
        }
    }

    /// Handles one event at time `now`.
    ///
    /// A trigger starts the animation or moves its deadline to `now` plus
    /// `ANIMATION_MS`; the hue stays where it is. A frame tick before the
    /// deadline moves the hue on and draws. Once the deadline has passed, a
    /// deadline event or a frame tick ends the animation and blanks the
    /// pixels. A deadline event before the deadline, left over from a
    /// deadline that a trigger has since moved, is ignored.
    pub fn step(&mut self, event: SchedulerEvent, now: u64) -> (action: LightAction)
        requires
            event == SchedulerEvent::Trigger ==> now + ANIMATION_MS <= u64::MAX,
        ensures
            final(self)@.state == state_after(old(self)@.state, event, now),
            final(self)@.hue == hue_after(old(self)@.state, old(self)@.hue, event, now),
            action == action_after(old(self)@.state, old(self)@.hue, event, now),
    {
        match event {
            SchedulerEvent::Trigger => {
                self.state = AnimationState::Running { deadline: now + ANIMATION_MS };
                LightAction::Keep
            },
            SchedulerEvent::DeadlineElapsed => {
                match self.state {
                    AnimationState::Idle => LightAction::Keep,
                    AnimationState::Running { deadline } => {
                        if now >= deadline {
                            self.state = AnimationState::Idle;
                            LightAction::Blank
                        } else {
                            LightAction::Keep
                        }
                    },
                }
            },
            SchedulerEvent::FrameTick => {
                match self.state {
                    AnimationState::Idle => LightAction::Keep,
                    AnimationState::Running { deadline } => {
                        if now >= deadline {
                            self.state = AnimationState::Idle;
                            LightAction::Blank
                        } else {
                            self.hue = self.hue.wrapping_add(1);
                            LightAction::Draw(frame_pixel(self.hue))
                        }
                    },
                }
            },
        }
    }
}

/// A trigger wins over a deadline that expires at the same moment: the
/// animation is extended, not blanked.
pub proof fn lemma_trigger_wins(state: AnimationState, hue: u8, frame_due: bool, now: u64)
    requires
        now + ANIMATION_MS <= u64::MAX,
    ensures
        spec_select(state, true, frame_due, now) == Some(SchedulerEvent::Trigger),
        state_after(state, SchedulerEvent::Trigger, now) == (AnimationState::Running {
            deadline: (now + ANIMATION_MS) as u64,
        }),
        hue_after(state, hue, SchedulerEvent::Trigger, now) == hue,
        action_after(state, hue, SchedulerEvent::Trigger, now) == LightAction::Keep,
{
}

/// After a trigger at `now`, a deadline event that comes before `now` plus
/// `ANIMATION_MS` blanks nothing and ends nothing, whatever the deadline was
/// before the trigger.
pub proof fn lemma_retrigger_defers_blanking(state: AnimationState, hue: u8, now: u64, later: u64)
    requires
        now + ANIMATION_MS <= u64::MAX,
        later < now + ANIMATION_MS,
    ensures
        action_after(
            state_after(state, SchedulerEvent::Trigger, now),
            hue,
            SchedulerEvent::DeadlineElapsed,
            later,
        ) == LightAction::Keep,
        state_after(
            state_after(state, SchedulerEvent::Trigger, now),
            SchedulerEvent::DeadlineElapsed,
            later,
        ) == (AnimationState::Running { deadline: (now + ANIMATION_MS) as u64 }),
{
}

/// The pixels are blanked only once the deadline of the running animation
/// has passed.
pub proof fn lemma_blank_only_after_deadline(
    state: AnimationState,
    hue: u8,
    event: SchedulerEvent,
    now: u64,
)
    requires
        action_after(state, hue, event, now) == LightAction::Blank,
    ensures
        state matches AnimationState::Running { deadline } && now >= deadline,
        state_after(state, event, now) == AnimationState::Idle,
{
}

} // verus!
