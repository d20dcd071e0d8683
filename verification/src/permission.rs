//! Permission levels and the rules that decide on drawing, moderation and
//! permission changes.

use vstd::prelude::*;
use vstd::string::StrSliceExecFns;

verus! {

/// Capability of a user on one canvas, from weakest to strongest.
#[derive(Clone, Copy, Debug, PartialEq, Eq, Structural)]
pub enum PermissionLevel {
    Viewer,
    Writer,
    Moderator,
    Owner,
    Creator,
}

impl PermissionLevel {
    /// Position in the capability order: `Viewer` is 0, `Creator` is 4.
    pub open spec fn rank(self) -> nat {
        match self {
            PermissionLevel::Viewer => 0,
            PermissionLevel::Writer => 1,
            PermissionLevel::Moderator => 2,
            PermissionLevel::Owner => 3,
            PermissionLevel::Creator => 4,
        }
    }

    /// The single-character tag under which the level is stored and sent.
    pub open spec fn tag(self) -> char {
        match self {
            PermissionLevel::Viewer => 'V',
            PermissionLevel::Writer => 'W',
            PermissionLevel::Moderator => 'M',
            PermissionLevel::Owner => 'O',
            PermissionLevel::Creator => 'C',
        }
    }

    /// Reads a stored permission code. Anything but one of the five tags,
    /// the empty string included, is no level.
    pub fn from_code(code: &str) -> (level: Option<PermissionLevel>)
        ensures
            level == level_of(code@),
    {
        if code.unicode_len() != 1 {
            return None;
        }
        let c = code.get_char(0);
        if c == 'V' {
            Some(PermissionLevel::Viewer)
        } else if c == 'W' {
            Some(PermissionLevel::Writer)
        } else if c == 'M' {
            Some(PermissionLevel::Moderator)
        } else if c == 'O' {
            Some(PermissionLevel::Owner)
        } else if c == 'C' {
            Some(PermissionLevel::Creator)
        } else {
            None
        }
    }

    /// The code of this level, as stored in claims.
    pub fn code(self) -> (code: &'static str)
        ensures
            code@ == seq![self.tag()],
            level_of(code@) == Some(self),
    {
        proof {
            reveal_strlit("V");
            reveal_strlit("W");
            reveal_strlit("M");
            reveal_strlit("O");
            reveal_strlit("C");
        }
        let code = match self {
            PermissionLevel::Viewer => "V",
            PermissionLevel::Writer => "W",
            PermissionLevel::Moderator => "M",
            PermissionLevel::Owner => "O",
            PermissionLevel::Creator => "C",
        };
        assert(code@ =~= seq![self.tag()]);
        code
    }

    /// Whether this level grants at least what `other` grants.
    pub fn at_least(self, other: PermissionLevel) -> (yes: bool)
        ensures
            yes == (self.rank() >= other.rank()),
    {
        self.rank_value() >= other.rank_value()
    }

    /// `rank` as a machine integer.
    pub fn rank_value(self) -> (r: u8)
        ensures
            r == self.rank(),
    {
        match self {
            PermissionLevel::Viewer => 0,
            PermissionLevel::Writer => 1,
            PermissionLevel::Moderator => 2,
            PermissionLevel::Owner => 3,
            PermissionLevel::Creator => 4,
        }
    }
}

/// The level that a permission code stands for, if any.
pub open spec fn level_of(code: Seq<char>) -> Option<PermissionLevel> {
    if code.len() != 1 {
        None
    } else if code[0] == 'V' {
        Some(PermissionLevel::Viewer)
    } else if code[0] == 'W' {
        Some(PermissionLevel::Writer)
    } else if code[0] == 'M' {
        Some(PermissionLevel::Moderator)
    } else if code[0] == 'O' {
        Some(PermissionLevel::Owner)
    } else if code[0] == 'C' {
        Some(PermissionLevel::Creator)
    } else {
        None
    }
}

/// Moderators, owners and creators may toggle moderation and draw on a
/// moderated canvas.
pub open spec fn may_moderate(code: Seq<char>) -> bool {
    level_of(code) matches Some(level) && level.rank() >= PermissionLevel::Moderator.rank()
}

/// Drawing takes at least `Writer`; a plain `Writer` is held back while the
/// canvas is moderated.
pub open spec fn may_draw(code: Seq<char>, is_moderated: bool) -> bool {
    level_of(code) matches Some(level) && level.rank() >= PermissionLevel::Writer.rank() && (level
        != PermissionLevel::Writer || !is_moderated)
}

/// Decides whether the holder of `permission` may toggle moderation.
pub fn can_moderate(permission: &str) -> (yes: bool)
    ensures
        yes == may_moderate(permission@),
{
    match PermissionLevel::from_code(permission) {
        Some(level) => level.at_least(PermissionLevel::Moderator),
        None => false,
    }
}

/// Decides whether the holder of `permission` may draw on a canvas whose
/// moderation flag is `is_moderated`.
pub fn can_draw(permission: &str, is_moderated: bool) -> (yes: bool)
    ensures
        yes == may_draw(permission@, is_moderated),
{
    match PermissionLevel::from_code(permission) {
        Some(level) => {
            if level.at_least(PermissionLevel::Moderator) {
                true
            } else {
                level.at_least(PermissionLevel::Writer) && !is_moderated
            }
        },
        None => false,
    }
}

} // verus!
