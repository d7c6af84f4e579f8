//! Edge notification and the button monitor.
//!
//! A pin's interrupt is armed once, fires once and stays silent until it is
//! re-armed. Firing does one thing: it posts the pin's bit into a shared
//! wakeup word. The monitor takes the word, reads the level of each pin whose
//! bit is set, reports a press for each pin that went to the active level, and
//! re-arms every pin.

use vstd::prelude::*;
use crate::button::{ButtonNumber, Level};

verus! {

/// Number of bits in the wakeup word, and so the most pins one monitor holds.
pub const MAX_PINS: usize = 32;

/// Whether `bit` is set in `word`.
pub open spec fn has_bit(word: u32, bit: u32) -> bool {
    bit < 32 && word & (1u32 << bit) != 0
}

/// The word shared between interrupt context and the monitor.
#[derive(Clone, Copy, Debug, PartialEq, Eq, Structural)]
pub struct WakeupWord {
    pub bits: u32,
}

impl WakeupWord {
    pub fn new() -> (word: Self)
        ensures
            word.bits == 0,
    {
        WakeupWord { bits: 0 }
    }

    /// Sets one bit. A bit outside the word is refused and nothing changes.
    pub fn set_bit(&mut self, bit: u32) -> (done: bool)
        ensures
            done == (bit < 32),
            done ==> final(self).bits == old(self).bits | (1u32 << bit),
            !done ==> final(self).bits == old(self).bits,
    {
        if bit < 32 {
            self.bits = self.bits | (1u32 << bit);
            true
        } else {
            false
        }
    }

    /// Hands out the word and clears it.
    pub fn take(&mut self) -> (bits: u32)
        ensures
            bits == old(self).bits,
            final(self).bits == 0,
    {
        let bits: u32 = self.bits;
        self.bits = 0;
        bits
    }
}

/// Where a pin stands in its arm, fire, re-arm cycle.
#[derive(Clone, Copy, Debug, PartialEq, Eq, Structural)]
pub enum PinPhase {
    /// The interrupt is enabled and has not fired.
    Armed,
    /// The interrupt fired and is disabled until it is re-armed.
    Pending,
}

/// One interrupt-capable input with the bit it posts.
#[derive(Clone, Copy, Debug)]
pub struct EdgeNotifier {
    bit: u32,
    phase: PinPhase,
}

impl EdgeNotifier {
    #[verifier::type_invariant]
    spec fn inv(self) -> bool {
        self.bit < 32
    }

    pub closed spec fn spec_bit(&self) -> u32 {
        self.bit
    }

    pub closed spec fn spec_phase(&self) -> PinPhase {
        self.phase
    }

    /// Arms an input that posts `bit`. There is no such input for a bit
    /// outside the wakeup word.
    pub fn configure(bit: u32) -> (notifier: Option<Self>)
        ensures
            notifier is Some <==> bit < 32,
            notifier matches Some(n) ==> n.spec_bit() == bit && n.spec_phase() == PinPhase::Armed,
    {
        if bit < 32 {
            Some(EdgeNotifier { bit, phase: PinPhase::Armed })
        } else {
            None
        }
    }

    #[verifier::when_used_as_spec(spec_bit)]
    pub fn bit(&self) -> (bit: u32)
        ensures
            bit == self.spec_bit(),
            bit < 32,
    {
        proof {
            use_type_invariant(self);
        }
        self.bit
    }

    #[verifier::when_used_as_spec(spec_phase)]
    pub fn phase(&self) -> (phase: PinPhase)
        ensures
            phase == self.spec_phase(),
    {
        self.phase
    }

    /// A hardware transition on the pin. An armed input posts its bit and
    /// goes silent; a silent one does nothing.
    pub fn fire(&mut self, word: &mut WakeupWord) -> (posted: bool)
        ensures
            posted == (old(self).spec_phase() == PinPhase::Armed),
            final(self).spec_bit() == old(self).spec_bit(),
            final(self).spec_phase() == PinPhase::Pending,
            posted ==> final(word).bits == old(word).bits | (1u32 << old(self).spec_bit()),
            posted ==> has_bit(final(word).bits, old(self).spec_bit()),
            !posted ==> final(word).bits == old(word).bits,
    {
        proof {
            use_type_invariant(&*self);
        }
        match self.phase {
            PinPhase::Armed => {
                let bit: u32 = self.bit;
                let before: u32 = word.bits;
                word.bits = before | (1u32 << bit);
                self.phase = PinPhase::Pending;
                assert((before | (1u32 << bit)) & (1u32 << bit) != 0) by (bit_vector)
                    requires
                        bit < 32,
                ;
                true
            },
            PinPhase::Pending => false,
        }
    }

    /// Enables the interrupt again.
    pub fn rearm(&mut self)
        ensures
            final(self).spec_bit() == old(self).spec_bit(),
            final(self).spec_phase() == PinPhase::Armed,
    {
        proof {
            use_type_invariant(&*self);
        }
        self.phase = PinPhase::Armed;
    }
}

/// A press accepted by the monitor.
#[derive(Clone, Copy, Debug, PartialEq, Eq, Structural)]
pub struct ButtonPressEvent {
    pub button: ButtonNumber,
    /// Monotonic time of the wake that found the press, in milliseconds.
    pub observed_at: u64,
}

/// Whether a pin last seen at `last` and now read at `level` was pressed.
pub open spec fn reports_press(last: Level, level: Level) -> bool {
    level != last && level.spec_is_active()
}

/// What the monitor knows of one pin.
pub struct PinView {
    pub button: ButtonNumber,
    pub last_level: Level,
    pub phase: PinPhase,
}

/// One monitored pin: its button, the level last recorded, its notifier.
#[derive(Clone, Copy, Debug)]
pub struct MonitoredButton {
    button: ButtonNumber,
    last_level: Level,
    notifier: EdgeNotifier,
}

impl View for MonitoredButton {
    type V = PinView;

    closed spec fn view(&self) -> PinView {
        PinView {
            button: self.button,
            last_level: self.last_level,
            phase: self.notifier.spec_phase(),
        }
    }
}

impl MonitoredButton {
    pub closed spec fn spec_bit(&self) -> u32 {
        self.notifier.spec_bit()
    }

    /// Binds `button` to the pin that posts `bit`, read at `level` when it
    /// was configured.
    pub fn new(button: ButtonNumber, bit: u32, level: Level) -> (pin: Option<Self>)
        ensures
            pin is Some <==> bit < 32,
            pin matches Some(p) ==> p.spec_bit() == bit && p@ == (PinView {
                button,
                last_level: level,
                phase: PinPhase::Armed,
            }),
    {
        match EdgeNotifier::configure(bit) {
            Some(notifier) => Some(MonitoredButton { button, last_level: level, notifier }),
            None => None,
        }
    }

    pub fn button(&self) -> (button: ButtonNumber)
        ensures
            button == self@.button,
    {
        self.button
    }

    pub fn last_level(&self) -> (level: Level)
        ensures
            level == self@.last_level,
    {
        self.last_level
    }

    pub fn phase(&self) -> (phase: PinPhase)
        ensures
            phase == self@.phase,
    {
        self.notifier.phase()
    }

    #[verifier::when_used_as_spec(spec_bit)]
    pub fn bit(&self) -> (bit: u32)
        ensures
            bit == self.spec_bit(),
            bit < 32,
    {
        self.notifier.bit()
    }

    /// A hardware transition on this pin.
    pub fn fire(&mut self, word: &mut WakeupWord) -> (posted: bool)
        ensures
            posted == (old(self)@.phase == PinPhase::Armed),
            final(self).spec_bit() == old(self).spec_bit(),
            final(self)@ == (PinView { phase: PinPhase::Pending, ..old(self)@ }),
            posted ==> final(word).bits == old(word).bits | (1u32 << old(self).spec_bit()),
            posted ==> has_bit(final(word).bits, old(self).spec_bit()),
            !posted ==> final(word).bits == old(word).bits,
    {
        self.notifier.fire(word)
    }

    /// Records the level read after a wake. A press is reported when the pin
    /// went to the active level, and only then; a pin that went to the
    /// inactive level, or did not change, is recorded and not reported.
    pub fn observe(&mut self, level: Level, now: u64) -> (event: Option<ButtonPressEvent>)
        ensures
            final(self).spec_bit() == old(self).spec_bit(),
            final(self)@ == (PinView { last_level: level, ..old(self)@ }),
            event == if reports_press(old(self)@.last_level, level) {
                Some(ButtonPressEvent { button: old(self)@.button, observed_at: now })
            } else {
                None::<ButtonPressEvent>
            },
    {
        let pressed: bool = level != self.last_level && level.is_active();
        self.last_level = level;
        if pressed {
            Some(ButtonPressEvent { button: self.button, observed_at: now })
        } else {
            None
        }
    }

    /// Enables the pin's interrupt again.
    pub fn rearm(&mut self)
        ensures
            final(self).spec_bit() == old(self).spec_bit(),
            final(self)@ == (PinView { phase: PinPhase::Armed, ..old(self)@ }),
    {
        self.notifier.rearm();
    }
}

/// A pin after one wake was processed: the level read is recorded if the
/// pin's bit was set, and the interrupt is armed again either way.
pub open spec fn pin_after_wake(pin: PinView, woken: bool, level: Level) -> PinView {
    PinView {
        button: pin.button,
        last_level: if woken {
            level
        } else {
            pin.last_level
        },
        phase: PinPhase::Armed,
    }
}

/// Whether the pin at `index` reports a press on this wake.
pub open spec fn pin_reports(pins: Seq<PinView>, wake: u32, levels: Seq<Level>, index: int) -> bool {
    has_bit(wake, index as u32) && reports_press(pins[index].last_level, levels[index])
}

/// The presses that one wake reports among the first `n` pins, in pin order.
pub open spec fn presses_of_wake(
    pins: Seq<PinView>,
    wake: u32,
    levels: Seq<Level>,
    now: u64,
    n: int,
) -> Seq<ButtonPressEvent>
    decreases n,
{
    if n <= 0 {
        Seq::empty()
    } else {
        let earlier = presses_of_wake(pins, wake, levels, now, n - 1);
        if pin_reports(pins, wake, levels, n - 1) {
            earlier.push(ButtonPressEvent { button: pins[n - 1].button, observed_at: now })
        } else {
            earlier
        }
    }
}

/// Whether no button is bound to two pins.
pub open spec fn distinct_buttons(buttons: Seq<ButtonNumber>) -> bool {
    forall|i: int, j: int| 0 <= i < j < buttons.len() ==> buttons[i] != buttons[j]
}

/// The buttons of the pins, in pin order.
pub open spec fn bound_buttons(pins: Seq<PinView>) -> Seq<ButtonNumber> {
    Seq::new(pins.len(), |i: int| pins[i].button)
}

/// The monitor: the pins in the order of their bits.
#[derive(Debug)]
pub struct ButtonMonitor {
    pins: Vec<MonitoredButton>,
}

impl View for ButtonMonitor {
    type V = Seq<PinView>;

    closed spec fn view(&self) -> Seq<PinView> {
        Seq::new(self.pins@.len(), |i: int| self.pins@[i]@)
    }
}

impl ButtonMonitor {
    #[verifier::type_invariant]
    spec fn inv(self) -> bool {
        &&& self.pins@.len() <= 32
        &&& forall|i: int| 0 <= i < self.pins@.len() ==> (#[trigger] self.pins@[i]).spec_bit() == i
        &&& forall|i: int, j: int|
            0 <= i < j < self.pins@.len() ==> self.pins@[i]@.button != self.pins@[j]@.button
    }

    /// Binds each button to the pin of its position, with the level read
    /// from that pin at configuration. Refused where there are more pins
    /// than bits in the wakeup word, or a button is bound twice.
    pub fn new(bindings: &Vec<(ButtonNumber, Level)>) -> (monitor: Option<Self>)
        ensures
            monitor is Some <==> bindings@.len() <= MAX_PINS && distinct_buttons(
                bindings@.map_values(|b: (ButtonNumber, Level)| b.0),
            ),
            monitor matches Some(m) ==> m@ == bindings@.map_values(
                |b: (ButtonNumber, Level)|
                    PinView { button: b.0, last_level: b.1, phase: PinPhase::Armed },
            ),
    {
        let ghost buttons = bindings@.map_values(|b: (ButtonNumber, Level)| b.0);
        let n: usize = bindings.len();
        if n > MAX_PINS {
            return None;
        }
        let mut pins: Vec<MonitoredButton> = Vec::new();
        let mut i: usize = 0;
        while i < n
            invariant
                n == bindings@.len(),
                n <= 32,
                i <= n,
                buttons == bindings@.map_values(|b: (ButtonNumber, Level)| b.0),
                pins@.len() == i,
                forall|k: int| 0 <= k < i ==> (#[trigger] pins@[k]).spec_bit() == k,
                forall|k: int|
                    0 <= k < i ==> (#[trigger] pins@[k])@ == (PinView {
                        button: bindings@[k].0,
                        last_level: bindings@[k].1,
                        phase: PinPhase::Armed,
                    }),
                forall|a: int, b: int| 0 <= a < b < i ==> buttons[a] != buttons[b],
            decreases n - i,
        {
            let (button, level) = bindings[i];
            let mut j: usize = 0;
            while j < i
                invariant
                    n == bindings@.len(),
                    i < n,
                    j <= i,
                    button == bindings@[i as int].0,
                    buttons == bindings@.map_values(|b: (ButtonNumber, Level)| b.0),
                    forall|a: int| 0 <= a < j ==> buttons[a] != buttons[i as int],
                decreases i - j,
            {
                if bindings[j].0 == button {
                    assert(buttons[j as int] == buttons[i as int]);
                    return None;
                }
                j += 1;
            }
            match MonitoredButton::new(button, i as u32, level) {
                Some(pin) => {
                    pins.push(pin);
                },
                None => {
                    return None;
                },
            }
            i += 1;
        }
        assert forall|a: int, b: int| 0 <= a < b < pins@.len() implies pins@[a]@.button
            != pins@[b]@.button by {
            assert(buttons[a] != buttons[b]);
        }
        let monitor = ButtonMonitor { pins };
        assert(monitor@ =~= bindings@.map_values(
            |b: (ButtonNumber, Level)|
                PinView { button: b.0, last_level: b.1, phase: PinPhase::Armed },
        ));
        Some(monitor)
    }

    /// Number of monitored pins. No two of them have the same button.
    pub fn len(&self) -> (n: usize)
        ensures
            n == self@.len(),
            n <= MAX_PINS,
            distinct_buttons(bound_buttons(self@)),
    {
        proof {
            use_type_invariant(self);
        }
        self.pins.len()
    }

    /// The pin that posts bit `index`.
    pub fn pin(&self, index: usize) -> (pin: Option<MonitoredButton>)
        ensures
            pin is Some <==> index < self@.len(),
            pin matches Some(p) ==> p@ == self@[index as int] && p.spec_bit() == index,
    {
        proof {
            use_type_invariant(self);
        }
        if index < self.pins.len() {
            Some(self.pins[index])
        } else {
            None
        }
    }

    /// A hardware transition on the pin that posts bit `index`. An armed pin
    /// posts its bit into `word` and goes silent; a silent pin, or an index
    /// without a pin, changes nothing in the word.
    pub fn fire(&mut self, index: usize, word: &mut WakeupWord) -> (posted: bool)
        ensures
            posted == (index < old(self)@.len() && old(self)@[index as int].phase
                == PinPhase::Armed),
            final(self)@ == if index < old(self)@.len() {
                old(self)@.update(
                    index as int,
                    PinView { phase: PinPhase::Pending, ..old(self)@[index as int] },
                )
            } else {
                old(self)@
            },
            posted ==> final(word).bits == old(word).bits | (1u32 << (index as u32)),
            posted ==> has_bit(final(word).bits, index as u32),
            !posted ==> final(word).bits == old(word).bits,
    {
        proof {
            use_type_invariant(&*self);
        }
        if index >= self.pins.len() {
            return false;
        }
        let mut pins: Vec<MonitoredButton> = Vec::new();
        std::mem::swap(&mut self.pins, &mut pins);
        let ghost before = pins@;
        let mut pin: MonitoredButton = pins[index];
        let posted: bool = pin.fire(word);
        pins.set(index, pin);
        assert forall|a: int| 0 <= a < pins@.len() implies (#[trigger] pins@[a])@.button
            == before[a]@.button by {}
        std::mem::swap(&mut self.pins, &mut pins);
        assert(self@ =~= old(self)@.update(
            index as int,
            PinView { phase: PinPhase::Pending, ..old(self)@[index as int] },
        ));
        posted
    }

    /// Processes one wake. `wake` is the wakeup word as taken, `levels` the
    /// level now read from each pin, `now` the time of the wake. Only pins
    /// whose bit is set are looked at; each of them records its level, and
    /// those that went to the active level are reported, in pin order. Every
    /// pin is armed again. Refused, with nothing changed, where `levels` does
    /// not hold one level for each pin.
    pub fn process_wake(&mut self, wake: u32, levels: &Vec<Level>, now: u64) -> (presses: Option<
        Vec<ButtonPressEvent>,
    >)
        ensures
            presses is Some <==> levels@.len() == old(self)@.len(),
            presses is None ==> final(self)@ == old(self)@,
            presses matches Some(p) ==> {
                &&& p@ == presses_of_wake(old(self)@, wake, levels@, now, old(self)@.len() as int)
                &&& final(self)@.len() == old(self)@.len()
                &&& forall|i: int|
                    0 <= i < old(self)@.len() ==> #[trigger] final(self)@[i] == pin_after_wake(
                        old(self)@[i],
                        has_bit(wake, i as u32),
                        levels@[i],
                    )
            },
    {
        proof {
            use_type_invariant(&*self);
        }
        let n: usize = self.pins.len();
        if levels.len() != n {
            return None;
        }
        let mut pins: Vec<MonitoredButton> = Vec::new();
        std::mem::swap(&mut self.pins, &mut pins);
        let ghost before = pins@;
        let mut presses: Vec<ButtonPressEvent> = Vec::new();
        let mut i: usize = 0;
        while i < n
            invariant
                n == pins@.len(),
                n == before.len(),
                forall|k: int| 0 <= k < n ==> (#[trigger] pins@[k])@.button == before[k]@.button,
                n == levels@.len(),
                n == old(self)@.len(),
                n <= 32,
                i <= n,
                forall|k: int| 0 <= k < n ==> (#[trigger] pins@[k]).spec_bit() == k,
                forall|k: int| i <= k < n ==> (#[trigger] pins@[k])@ == old(self)@[k],
                forall|k: int|
                    0 <= k < i ==> (#[trigger] pins@[k])@ == pin_after_wake(
                        old(self)@[k],
                        has_bit(wake, k as u32),
                        levels@[k],
                    ),
                presses@ == presses_of_wake(old(self)@, wake, levels@, now, i as int),
            decreases n - i,
        {
            let mut pin: MonitoredButton = pins[i];
            let bit: u32 = i as u32;
            if wake & (1u32 << bit) != 0 {
                match pin.observe(levels[i], now) {
                    Some(event) => {
                        presses.push(event);
                    },
                    None => {},
                }
            }
            pin.rearm();
            pins.set(i, pin);
            i += 1;
        }
        std::mem::swap(&mut self.pins, &mut pins);
        assert(self@.len() == n);
        assert forall|k: int| 0 <= k < old(self)@.len() implies #[trigger] self@[k]
            == pin_after_wake(old(self)@[k], has_bit(wake, k as u32), levels@[k]) by {
            assert(self.pins@[k]@ == self@[k]);
        }
        Some(presses)
    }
}

/// The level recorded for a pin just before the wake at `index`, where the
/// pin was configured at `initial` and `levels` were read at its wakes.
pub open spec fn level_before(initial: Level, levels: Seq<Level>, index: int) -> Level {
    if index <= 0 {
        initial
    } else {
        levels[index - 1]
    }
}

/// One pin taken through successive wakes by `MonitoredButton::observe`: the
/// level it ends with, and how many presses were reported.
pub open spec fn run_pin(initial: Level, levels: Seq<Level>) -> (Level, nat)
    decreases levels.len(),
{
    if levels.len() == 0 {
        (initial, 0)
    } else {
        let (last, count) = run_pin(initial, levels.drop_last());
        (
            levels.last(),
            if reports_press(last, levels.last()) {
                count + 1
            } else {
                count
            },
        )
    }
}

/// The wakes at which the pin is found to have gone from the inactive to the
/// active level.
pub open spec fn activations(initial: Level, levels: Seq<Level>) -> Set<int> {
    Set::new(
        |k: int|
            0 <= k < levels.len() && levels[k].spec_is_active() && !level_before(
                initial,
                levels,
                k,
            ).spec_is_active(),
    )
}

/// After any run the pin's recorded level is the one read last.
pub proof fn lemma_run_pin_level(initial: Level, levels: Seq<Level>)
    ensures
        run_pin(initial, levels).0 == level_before(initial, levels, levels.len() as int),
{
}

/// Over any sequence of wakes of one pin, the presses reported are as many as
/// the transitions into the active level: one for each, none for a transition
/// into the inactive level, none for a wake without a transition.
pub proof fn lemma_one_press_per_activation(initial: Level, levels: Seq<Level>)
    ensures
        activations(initial, levels).finite(),
        run_pin(initial, levels).1 == activations(initial, levels).len(),
    decreases levels.len(),
{
    if levels.len() == 0 {
        assert(activations(initial, levels) =~= Set::<int>::empty());
    } else {
        let earlier = levels.drop_last();
        let last = levels.len() - 1;
        lemma_one_press_per_activation(initial, earlier);
        lemma_run_pin_level(initial, earlier);
        assert forall|k: int| 0 <= k < last implies level_before(initial, earlier, k)
            == level_before(initial, levels, k) by {}
        if reports_press(run_pin(initial, earlier).0, levels.last()) {
            assert(activations(initial, levels) =~= activations(initial, earlier).insert(last));
        } else {
            assert(activations(initial, levels) =~= activations(initial, earlier));
        }
    }
}

/// A wake that finds the pin where it was recorded changes nothing: with
/// such a wake put in at any place, the run ends at the same level with the
/// same number of presses.
pub proof fn lemma_spurious_wake_is_silent(initial: Level, levels: Seq<Level>, at: int)
    requires
        0 <= at <= levels.len(),
    ensures
        run_pin(initial, levels.insert(at, level_before(initial, levels, at))) == run_pin(
            initial,
            levels,
        ),
    decreases levels.len(),
{
    let repeated = level_before(initial, levels, at);
    let longer = levels.insert(at, repeated);
    if at == levels.len() {
        assert(longer.drop_last() =~= levels);
        lemma_run_pin_level(initial, levels);
    } else {
        let earlier = levels.drop_last();
        assert(longer.drop_last() =~= earlier.insert(at, level_before(initial, earlier, at)));
        assert(longer.last() == levels.last());
        lemma_spurious_wake_is_silent(initial, earlier, at);
    }
}

} // verus!
