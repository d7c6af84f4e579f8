//! The button sequence: an ordered gesture of at most five presses.

use vstd::prelude::*;
use crate::button::ButtonNumber;

verus! {

/// The most presses one sequence holds.
pub const SEQUENCE_CAP: usize = 5;

/// A `smallvec::SmallVec` of buttons with inline room for five. The verifier
/// does not look inside: what it holds is named by `held`.
#[verifier::external_body]
#[derive(Debug)]
pub struct InlineButtons {
    items: smallvec::SmallVec<[ButtonNumber; 5]>,
}

/// The buttons that the vector holds, first pushed first.
pub uninterp spec fn held(buttons: InlineButtons) -> Seq<ButtonNumber>;

/// Calls `smallvec::SmallVec::new`. Trusted: the new vector holds nothing.
#[verifier::external_body]
fn buttons_new() -> (buttons: InlineButtons)
    ensures
        held(buttons) == Seq::<ButtonNumber>::empty(),
{
    InlineButtons { items: smallvec::SmallVec::new() }
}

/// Calls `smallvec::SmallVec::len`. Trusted: it is the number of buttons held.
#[verifier::external_body]
fn buttons_len(buttons: &InlineButtons) -> (n: usize)
    ensures
        n == held(*buttons).len(),
{
    buttons.items.len()
}

/// Calls `smallvec::SmallVec::push` on a vector with room in its inline
/// storage. Trusted: the button is appended behind those held, and with room
/// left nothing is allocated, so the call does not unwind.
#[verifier::external_body]
fn buttons_push(buttons: &mut InlineButtons, button: ButtonNumber)
    requires
        held(*old(buttons)).len() < 5,
    ensures
        held(*final(buttons)) == held(*old(buttons)).push(button),
    no_unwind
{
    buttons.items.push(button)
}

/// Indexes a `smallvec::SmallVec` through its `Deref` to a slice. Trusted:
/// within the length it is the button at that place.
#[verifier::external_body]
fn buttons_get(buttons: &InlineButtons, index: usize) -> (button: ButtonNumber)
    requires
        index < held(*buttons).len(),
    ensures
        button == held(*buttons)[index as int],
{
    buttons.items[index]
}

/// An ordered list of at most `SEQUENCE_CAP` buttons, in the order pressed.
#[derive(Debug)]
pub struct ButtonSequence {
    buttons: InlineButtons,
}

impl View for ButtonSequence {
    type V = Seq<ButtonNumber>;

    closed spec fn view(&self) -> Seq<ButtonNumber> {
        held(self.buttons)
    }
}

impl ButtonSequence {
    #[verifier::type_invariant]
    spec fn inv(self) -> bool {
        held(self.buttons).len() <= 5
    }

    /// The empty sequence.
    pub fn new() -> (sequence: Self)
        ensures
            sequence@ == Seq::<ButtonNumber>::empty(),
    {
        ButtonSequence { buttons: buttons_new() }
    }

    pub fn len(&self) -> (n: usize)
        ensures
            n == self@.len(),
            n <= SEQUENCE_CAP,
    {
        proof {
            use_type_invariant(self);
        }
        buttons_len(&self.buttons)
    }

    pub fn is_empty(&self) -> (empty: bool)
        ensures
            empty == (self@.len() == 0),
    {
        buttons_len(&self.buttons) == 0
    }

    pub fn is_full(&self) -> (full: bool)
        ensures
            full == (self@.len() >= SEQUENCE_CAP),
    {
        buttons_len(&self.buttons) >= SEQUENCE_CAP
    }

    /// The button at `index`, if the sequence is that long.
    pub fn get(&self, index: usize) -> (button: Option<ButtonNumber>)
        ensures
            button == if index < self@.len() {
                Some(self@[index as int])
            } else {
                None::<ButtonNumber>
            },
    {
        if index < buttons_len(&self.buttons) {
            Some(buttons_get(&self.buttons, index))
        } else {
            None
        }
    }

    /// Appends a button. A full sequence takes no more and stays as it is.
    pub fn push(&mut self, button: ButtonNumber) -> (pushed: bool)
        ensures
            pushed == (old(self)@.len() < SEQUENCE_CAP),
            final(self)@ == if pushed {
                old(self)@.push(button)
            } else {
                old(self)@
            },
    {
        if buttons_len(&self.buttons) < SEQUENCE_CAP {
            buttons_push(&mut self.buttons, button);
            true
        } else {
            false
        }
    }

    /// The buttons as a vector, in order.
    pub fn to_vec(&self) -> (buttons: Vec<ButtonNumber>)
        ensures
            buttons@ == self@,
    {
        let n: usize = buttons_len(&self.buttons);
        let mut out: Vec<ButtonNumber> = Vec::new();
        let mut i: usize = 0;
        while i < n
            invariant
                n == self@.len(),
                i <= n,
                out@ == self@.take(i as int),
            decreases n - i,
        {
            out.push(buttons_get(&self.buttons, i));
            i += 1;
            assert(out@ =~= self@.take(i as int));
        }
        assert(self@.take(n as int) =~= self@);
        out
    }

    /// The sequence of the first `SEQUENCE_CAP` buttons of `buttons`, or of
    /// all of them where there are fewer.
    pub fn from_slice(buttons: &[ButtonNumber]) -> (sequence: Self)
        ensures
            sequence@ == if buttons@.len() <= SEQUENCE_CAP {
                buttons@
            } else {
                buttons@.take(SEQUENCE_CAP as int)
            },
    {
        let n: usize = if buttons.len() <= SEQUENCE_CAP {
            buttons.len()
        } else {
            SEQUENCE_CAP
        };
        let mut sequence = ButtonSequence::new();
        let mut i: usize = 0;
        while i < n
            invariant
                n <= SEQUENCE_CAP,
                n <= buttons@.len(),
                i <= n,
                sequence@ == buttons@.take(i as int),
            decreases n - i,
        {
            sequence.push(buttons[i]);
            i += 1;
            assert(sequence@ =~= buttons@.take(i as int));
        }
        assert(buttons@.take(buttons@.len() as int) =~= buttons@);
        sequence
    }

    /// A copy with the same buttons.
    pub fn duplicate(&self) -> (copy: Self)
        ensures
            copy@ == self@,
    {
        proof {
            use_type_invariant(self);
        }
        let n: usize = buttons_len(&self.buttons);
        let mut copy = ButtonSequence::new();
        let mut i: usize = 0;
        while i < n
            invariant
                n == self@.len(),
                n <= SEQUENCE_CAP,
                i <= n,
                copy@ == self@.take(i as int),
            decreases n - i,
        {
            copy.push(buttons_get(&self.buttons, i));
            i += 1;
            assert(copy@ =~= self@.take(i as int));
        }
        assert(self@.take(n as int) =~= self@);
        copy
    }
}

impl Clone for ButtonSequence {
    fn clone(&self) -> (copy: Self)
        ensures
            copy@ == self@,
    {
        self.duplicate()
    }
}

impl PartialEq for ButtonSequence {
    fn eq(&self, other: &Self) -> (same: bool) {
        let n: usize = self.len();
        if n != other.len() {
            return false;
        }
        let mut i: usize = 0;
        while i < n
            invariant
                n == self@.len(),
                n == other@.len(),
                i <= n,
                self@.take(i as int) == other@.take(i as int),
            decreases n - i,
        {
            if buttons_get(&self.buttons, i) != buttons_get(&other.buttons, i) {
                return false;
            }
            i += 1;
            assert(self@.take(i as int) =~= self@.take(i - 1).push(self@[i - 1]));
            assert(other@.take(i as int) =~= other@.take(i - 1).push(other@[i - 1]));
        }
        assert(self@.take(n as int) =~= self@);
        assert(other@.take(n as int) =~= other@);
        true
    }
}

impl vstd::std_specs::cmp::PartialEqSpecImpl for ButtonSequence {
    open spec fn obeys_eq_spec() -> bool {
        true
    }

    open spec fn eq_spec(&self, other: &Self) -> bool {
        self@ == other@
    }
}

impl Eq for ButtonSequence {

}

} // verus!
