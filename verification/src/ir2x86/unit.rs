use vstd::prelude::*;
use crate::ir2x86::registerify::Mode;

verus! {

/// The settings of a translation to x86: the processor mode, and the stack alignment that callers
/// keep at a call.
pub struct TranslationContext {
    pub(crate) mode: Mode,
    alignment: u64,
}

impl TranslationContext {
    pub closed spec fn spec_mode(&self) -> Mode {
        self.mode
    }

    /// The alignment callers keep at a call, in bytes.
    pub closed spec fn spec_alignment(&self) -> u64 {
        self.alignment
    }

    /// A context for the mode, with callers keeping no alignment beyond a byte.
    pub fn new(mode: Mode) -> (r: TranslationContext)
        ensures
            r.spec_mode() == mode,
            r.spec_alignment() == 1,
    {
        TranslationContext { mode, alignment: 1 }
    }

    /// Sets the alignment callers keep at a call: the full value (such as 16), not its exponent.
    pub fn set_called_maintained_alignment(&mut self, alignment: u64)
        ensures
            final(self).spec_alignment() == alignment,
            final(self).spec_mode() == old(self).spec_mode(),
    {
        self.alignment = alignment;
    }

    pub fn alignment(&self) -> (r: u64)
        ensures
            r == self.spec_alignment(),
    {
        self.alignment
    }
}

} // verus!
