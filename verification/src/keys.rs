//! The sixteen-key keypad: which keys are currently held.
use vstd::prelude::*;

verus! {

/// An input event of the `egui` toolkit, carried through unread.
#[verifier::external_type_specification]
#[verifier::external_body]
pub struct ExEvent(egui::Event);

pub struct KeyPad {
    pub keys: [bool; 16],
}

impl View for KeyPad {
    type V = Seq<bool>;

    open spec fn view(&self) -> Seq<bool> {
        self.keys@
    }
}

impl KeyPad {
    /// A keypad with no key held.
    pub fn new() -> (out: Self)
        ensures
            out@ == Seq::new(16, |i: int| false),
    {
        let out = KeyPad { keys: [false; 16] };
        assert(out@ =~= Seq::new(16, |i: int| false));
        out
    }

    /// Releases every key.
    pub fn reset(&mut self)
        ensures
            final(self)@ == Seq::new(16, |i: int| false),
    {
        let mut i: usize = 0;
        while i < 16
            invariant
                i <= 16,
                forall|j: int| 0 <= j < i ==> !(#[trigger] self.keys@[j]),
            decreases 16 - i,
        {
            self.keys[i] = false;
            i += 1;
        }
        assert(self@ =~= Seq::new(16, |i: int| false));
    }

    /// Whether `key` is held.
    pub fn get(&self, key: usize) -> (out: bool)
        requires
            key < 16,
        ensures
            out == self@[key as int],
    {
        self.keys[key]
    }

    /// Releases `key`.
    pub fn clear_key(&mut self, key: usize)
        requires
            key < 16,
        ensures
            final(self)@ == old(self)@.update(key as int, false),
    {
        self.keys[key] = false;
    }

    /// Takes a toolkit event. No event changes the keypad.
    pub fn update(&mut self, event: &egui::Event)
        ensures
            final(self)@ == old(self)@,
    {
    }
}

} // verus!
