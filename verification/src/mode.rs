//! The configuration value that selects the optional features of the wire format.

use vstd::prelude::*;

verus! {

/// Which features of the wire format are active. A mode is copied into each
/// serializer and deserializer when it is made.
#[derive(Clone, Copy, Debug, PartialEq, Eq, Structural)]
pub struct Mode {
    /// Strings are written once, in a table at the head of the stream, and
    /// referenced by index in the payload.
    pub use_dedup: bool,
    /// Integers of fixed width are written as variable-length groups.
    pub fixed_size_use_varint: bool,
}

/// The mode with both features off.
pub open spec fn default_mode() -> Mode {
    Mode { use_dedup: false, fixed_size_use_varint: false }
}

/// The mode with string deduplication on and integers at fixed width.
pub open spec fn dedup_mode() -> Mode {
    Mode { use_dedup: true, fixed_size_use_varint: false }
}

impl Default for Mode {
    fn default() -> (m: Mode)
        ensures
            m == default_mode(),
    {
        Mode { use_dedup: false, fixed_size_use_varint: false }
    }
}

impl Mode {
    /// This mode with deduplication off: the mode under which a field exempt from
    /// deduplication is written and read.
    pub open spec fn inline_strings(self) -> Mode {
        Mode { use_dedup: false, fixed_size_use_varint: self.fixed_size_use_varint }
    }

    /// The mode with string deduplication on.
    pub fn dedup() -> (m: Mode)
        ensures
            m == dedup_mode(),
    {
        Mode { use_dedup: true, fixed_size_use_varint: false }
    }

    /// This mode with deduplication switched as given.
    pub fn with_dedup(self, use_dedup: bool) -> (m: Mode)
        ensures
            m == (Mode { use_dedup, fixed_size_use_varint: self.fixed_size_use_varint }),
    {
        Mode { use_dedup, fixed_size_use_varint: self.fixed_size_use_varint }
    }

    /// This mode with the width of fixed-size integers switched as given.
    pub fn with_fixed_size_use_varint(self, fixed_size_use_varint: bool) -> (m: Mode)
        ensures
            m == (Mode { use_dedup: self.use_dedup, fixed_size_use_varint }),
    {
        Mode { use_dedup: self.use_dedup, fixed_size_use_varint }
    }
}

} // verus!
