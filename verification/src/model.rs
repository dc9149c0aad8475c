use vstd::prelude::*;

verus! {

/// Hardware model being emulated.
#[derive(Debug, Clone, Copy, PartialEq, Eq, Structural)]
pub enum Model {
    /// The monochrome Game Boy (DMG)
    DMG,
    /// Game Boy Color (CGB)
    CGB,
}

impl Model {
    /// True exactly for the Game Boy Color.
    pub fn is_cgb(self) -> (r: bool)
        ensures
            r == (self == Model::CGB),
    {
        self == Model::CGB
    }

    /// True exactly for the monochrome Game Boy.
    pub fn is_dmg(self) -> (r: bool)
        ensures
            r == (self == Model::DMG),
    {
        self == Model::DMG
    }
}

} // verus!
