//! The durable model: the oscillator list and the user-authored label.
//!
//! This is everything the application persists. The transport's play flag is
//! deliberately not part of it, so a reloaded application always starts
//! paused. The label is kept as its UTF-8 bytes; a host shell converts to
//! and from its own string type at the edge.

use vstd::prelude::*;

use crate::oscillator::Oscillator;

verus! {

/// Largest number of list entries or label bytes the settings codec can
/// frame: a length must fit in four bytes.
pub const MAX_PERSISTED_LEN: u64 = 0xffff_ffff;

/// The set of oscillators and the user-authored label.
#[derive(Debug)]
pub struct Settings {
    pub oscillators: Vec<Oscillator>,
    /// UTF-8 bytes of the user-authored label.
    pub label: Vec<u8>,
}

impl Settings {
    /// Every oscillator is well formed, and both lists are small enough for
    /// the settings codec to frame.
    pub open spec fn wf(self) -> bool {
        &&& forall|i: int|
            0 <= i < self.oscillators@.len() ==> (#[trigger] self.oscillators@[i]).wf()
        &&& self.oscillators@.len() <= MAX_PERSISTED_LEN
        &&& self.label@.len() <= MAX_PERSISTED_LEN
    }

    /// A fresh workstation: one default oscillator, no label.
    pub fn new() -> (r: Settings)
        ensures
            r.oscillators@ =~= seq![Oscillator::default_spec()],
            r.label@ =~= Seq::<u8>::empty(),
            r.wf(),
    {
        let mut oscillators: Vec<Oscillator> = Vec::new();
        oscillators.push(Oscillator::default());
        Settings { oscillators, label: Vec::new() }
    }
}

impl Default for Settings {
    /// A fresh workstation: one default oscillator, no label.
    fn default() -> (r: Settings)
        ensures
            r.oscillators@ =~= seq![Oscillator::default_spec()],
            r.label@ =~= Seq::<u8>::empty(),
            r.wf(),
    {
        Settings::new()
    }
}

} // verus!
