use vstd::prelude::*;

verus! {

/// Mask of the user's read, write and execute bits (`0o700`).
pub const USER_MASK: u32 = 0o700;

/// Mask of the group's read, write and execute bits (`0o070`).
pub const GROUP_MASK: u32 = 0o070;

/// Mask of the other class's read, write and execute bits (`0o007`).
pub const OTHER_MASK: u32 = 0o007;

/// One of the three classes of a Unix mode's permission bits.
#[derive(Clone, Copy, Debug, PartialEq, Eq, Structural)]
pub enum Subject {
    User,
    Group,
    Other,
}

impl Subject {
    /// The class's three-bit field within a mode.
    pub open spec fn spec_mask(self) -> u32 {
        match self {
            Subject::User => USER_MASK,
            Subject::Group => GROUP_MASK,
            Subject::Other => OTHER_MASK,
        }
    }

    /// How far the class's field lies above bit 0.
    pub open spec fn spec_shift(self) -> u32 {
        match self {
            Subject::User => 6,
            Subject::Group => 3,
            Subject::Other => 0,
        }
    }

    /// The class's field mask, always paired with `shift`.
    pub fn mask(&self) -> (r: u32)
        ensures
            r == self.spec_mask(),
    {
        match self {
            Subject::User => USER_MASK,
            Subject::Group => GROUP_MASK,
            Subject::Other => OTHER_MASK,
        }
    }

    /// The class's field position, always paired with `mask`.
    pub fn shift(&self) -> (r: u32)
        ensures
            r == self.spec_shift(),
    {
        match self {
            Subject::User => 6,
            Subject::Group => 3,
            Subject::Other => 0,
        }
    }

    /// The class's (mask, shift) pair.
    pub fn get_mask_and_shift(&self) -> (r: (u32, u32))
        ensures
            r == (self.spec_mask(), self.spec_shift()),
    {
        (self.mask(), self.shift())
    }
}

/// The class that a letter names: `u`, `g` or `o`.
pub open spec fn subject_of_char(c: char) -> Option<Subject> {
    if c == 'u' {
        Some(Subject::User)
    } else if c == 'g' {
        Some(Subject::Group)
    } else if c == 'o' {
        Some(Subject::Other)
    } else {
        None
    }
}

/// The class that a whole token names: it must be exactly one known letter.
pub open spec fn subject_of_token(t: Seq<char>) -> Option<Subject> {
    if t.len() == 1 {
        subject_of_char(t[0])
    } else {
        None
    }
}

/// Reads one subject letter.
pub fn subject_from_char(c: char) -> (r: Option<Subject>)
    ensures
        r == subject_of_char(c),
{
    if c == 'u' {
        Some(Subject::User)
    } else if c == 'g' {
        Some(Subject::Group)
    } else if c == 'o' {
        Some(Subject::Other)
    } else {
        None
    }
}

} // verus!
