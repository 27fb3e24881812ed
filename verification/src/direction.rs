use vstd::prelude::*;
use vstd::string::StringExecFns;

use crate::errors::RoverError;
use crate::text::char_vec;

verus! {

/// A compass orientation. Exactly one of the four cardinal points is
/// representable; no fifth direction can exist.
#[derive(Clone, Copy, Debug, PartialEq, Eq, Structural)]
pub enum Direction {
    North,
    East,
    South,
    West,
}

impl Direction {
    /// The x component of the unit step taken by a forward move while facing
    /// this direction.
    pub open spec fn spec_dx(self) -> int {
        match self {
            Direction::North => 0,
            Direction::East => 1,
            Direction::South => 0,
            Direction::West => -1,
        }
    }

    /// The y component of the unit step taken by a forward move while facing
    /// this direction.
    pub open spec fn spec_dy(self) -> int {
        match self {
            Direction::North => 1,
            Direction::East => 0,
            Direction::South => -1,
            Direction::West => 0,
        }
    }

    /// The cyclic predecessor in the order North, East, South, West.
    pub open spec fn spec_turn_left(self) -> Direction {
        match self {
            Direction::North => Direction::West,
            Direction::East => Direction::North,
            Direction::South => Direction::East,
            Direction::West => Direction::South,
        }
    }

    /// The cyclic successor in the order North, East, South, West.
    pub open spec fn spec_turn_right(self) -> Direction {
        match self {
            Direction::North => Direction::East,
            Direction::East => Direction::South,
            Direction::South => Direction::West,
            Direction::West => Direction::North,
        }
    }

    /// The single-letter code used by the canonical serialization.
    pub open spec fn spec_letter(self) -> char {
        match self {
            Direction::North => 'N',
            Direction::East => 'E',
            Direction::South => 'S',
            Direction::West => 'W',
        }
    }

    /// Returns the per-axis increments (dx, dy) applied to a position by one
    /// forward move: North is (0, 1), East is (1, 0), South is (0, -1),
    /// West is (-1, 0).
    pub fn get_delta(&self) -> (delta: (i32, i32))
        ensures
            delta.0 as int == self.spec_dx(),
            delta.1 as int == self.spec_dy(),
    {
        match self {
            Direction::North => (0, 1),
            Direction::East => (1, 0),
            Direction::South => (0, -1),
            Direction::West => (-1, 0),
        }
    }

    /// Returns the direction after a quarter turn to the left:
    /// North -> West, West -> South, South -> East, East -> North.
    pub fn turn_left(&self) -> (d: Direction)
        ensures
            d == self.spec_turn_left(),
    {
        match self {
            Direction::North => Direction::West,
            Direction::East => Direction::North,
            Direction::South => Direction::East,
            Direction::West => Direction::South,
        }
    }

    /// Returns the direction after a quarter turn to the right:
    /// North -> East, East -> South, South -> West, West -> North.
    pub fn turn_right(&self) -> (d: Direction)
        ensures
            d == self.spec_turn_right(),
    {
        match self {
            Direction::North => Direction::East,
            Direction::East => Direction::South,
            Direction::South => Direction::West,
            Direction::West => Direction::North,
        }
    }

    /// Returns the canonical one-letter code of this direction, one of
    /// "N", "E", "S", "W".
    pub fn canonical_letter(&self) -> (s: &'static str)
        ensures
            s@ =~= seq![self.spec_letter()],
    {
        proof {
            reveal_strlit("N");
            reveal_strlit("E");
            reveal_strlit("S");
            reveal_strlit("W");
        }
        match self {
            Direction::North => "N",
            Direction::East => "E",
            Direction::South => "S",
            Direction::West => "W",
        }
    }
}

impl Default for Direction {
    /// A direction chosen without explicit input is North.
    fn default() -> (d: Direction)
        ensures
            d == Direction::North,
    {
        Direction::North
    }
}

/// Case folding restricted to the letters that occur in the recognized
/// direction spellings; any other character is left alone and can never make
/// a field match one of the spellings.
pub open spec fn lower_char(c: char) -> char {
    if c == 'N' {
        'n'
    } else if c == 'O' {
        'o'
    } else if c == 'R' {
        'r'
    } else if c == 'T' {
        't'
    } else if c == 'H' {
        'h'
    } else if c == 'E' {
        'e'
    } else if c == 'A' {
        'a'
    } else if c == 'S' {
        's'
    } else if c == 'U' {
        'u'
    } else if c == 'W' {
        'w'
    } else {
        c
    }
}

/// `s` spells "north" or "n" up to case folding.
pub open spec fn spells_north(s: Seq<char>) -> bool {
    ||| (s.len() == 5 && lower_char(s[0]) == 'n' && lower_char(s[1]) == 'o' && lower_char(s[2])
        == 'r' && lower_char(s[3]) == 't' && lower_char(s[4]) == 'h')
    ||| (s.len() == 1 && lower_char(s[0]) == 'n')
}

/// `s` spells "east" or "e" up to case folding.
pub open spec fn spells_east(s: Seq<char>) -> bool {
    ||| (s.len() == 4 && lower_char(s[0]) == 'e' && lower_char(s[1]) == 'a' && lower_char(s[2])
        == 's' && lower_char(s[3]) == 't')
    ||| (s.len() == 1 && lower_char(s[0]) == 'e')
}

/// `s` spells "south" or "s" up to case folding.
pub open spec fn spells_south(s: Seq<char>) -> bool {
    ||| (s.len() == 5 && lower_char(s[0]) == 's' && lower_char(s[1]) == 'o' && lower_char(s[2])
        == 'u' && lower_char(s[3]) == 't' && lower_char(s[4]) == 'h')
    ||| (s.len() == 1 && lower_char(s[0]) == 's')
}

/// `s` spells "west" or "w" up to case folding.
pub open spec fn spells_west(s: Seq<char>) -> bool {
    ||| (s.len() == 4 && lower_char(s[0]) == 'w' && lower_char(s[1]) == 'e' && lower_char(s[2])
        == 's' && lower_char(s[3]) == 't')
    ||| (s.len() == 1 && lower_char(s[0]) == 'w')
}

/// The direction denoted by a field of the initial-state text, if any:
/// a case-insensitive match against north/n, east/e, south/s, west/w.
pub open spec fn spec_dir_of(s: Seq<char>) -> Option<Direction> {
    if spells_north(s) {
        Some(Direction::North)
    } else if spells_east(s) {
        Some(Direction::East)
    } else if spells_south(s) {
        Some(Direction::South)
    } else if spells_west(s) {
        Some(Direction::West)
    } else {
        None
    }
}

/// Folds one character as `lower_char` does.
fn lower(c: char) -> (r: char)
    ensures
        r == lower_char(c),
{
    if c == 'N' {
        'n'
    } else if c == 'O' {
        'o'
    } else if c == 'R' {
        'r'
    } else if c == 'T' {
        't'
    } else if c == 'H' {
        'h'
    } else if c == 'E' {
        'e'
    } else if c == 'A' {
        'a'
    } else if c == 'S' {
        's'
    } else if c == 'U' {
        'u'
    } else if c == 'W' {
        'w'
    } else {
        c
    }
}

impl Direction {
    /// Reads a direction: a case-insensitive match against north/n, east/e,
    /// south/s, west/w. Any other text fails with `InvalidDirection` carrying
    /// the offending text.
    pub fn parse(text: &str) -> (r: Result<Direction, RoverError>)
        ensures
            match spec_dir_of(text@) {
                Some(d) => r matches Ok(parsed) && parsed == d,
                None => (r matches Err(RoverError::InvalidDirection { text: t }) && t@ == text@),
            },
    {
        let v = char_vec(text);
        match Self::parse_field(&v, 0, v.len()) {
            Some(d) => {
                proof {
                    assert(v@.subrange(0, v@.len() as int) =~= text@);
                }
                Ok(d)
            },
            None => {
                proof {
                    assert(v@.subrange(0, v@.len() as int) =~= text@);
                }
                Err(RoverError::InvalidDirection { text: String::from_str(text) })
            },
        }
    }

    /// Reads the direction field `v[lo..hi]` of an initial-state text:
    /// a case-insensitive match against north/n, east/e, south/s, west/w,
    /// and nothing else.
    pub(crate) fn parse_field(v: &Vec<char>, lo: usize, hi: usize) -> (r: Option<Direction>)
        requires
            lo <= hi <= v.len(),
        ensures
            r == spec_dir_of(v@.subrange(lo as int, hi as int)),
    {
        let ghost f = v@.subrange(lo as int, hi as int);
        let n: usize = hi - lo;
        if n == 1 {
            let c = lower(v[lo]);
            proof {
                assert(f[0] == v@[lo as int]);
            }
            if c == 'n' {
                Some(Direction::North)
            } else if c == 'e' {
                Some(Direction::East)
            } else if c == 's' {
                Some(Direction::South)
            } else if c == 'w' {
                Some(Direction::West)
            } else {
                None
            }
        } else if n == 4 {
            let c0 = lower(v[lo]);
            let c1 = lower(v[lo + 1]);
            let c2 = lower(v[lo + 2]);
            let c3 = lower(v[lo + 3]);
            proof {
                assert(f[0] == v@[lo as int]);
                assert(f[1] == v@[lo + 1]);
                assert(f[2] == v@[lo + 2]);
                assert(f[3] == v@[lo + 3]);
            }
            if c0 == 'e' && c1 == 'a' && c2 == 's' && c3 == 't' {
                Some(Direction::East)
            } else if c0 == 'w' && c1 == 'e' && c2 == 's' && c3 == 't' {
                Some(Direction::West)
            } else {
                None
            }
        } else if n == 5 {
            let c0 = lower(v[lo]);
            let c1 = lower(v[lo + 1]);
            let c2 = lower(v[lo + 2]);
            let c3 = lower(v[lo + 3]);
            let c4 = lower(v[lo + 4]);
            proof {
                assert(f[0] == v@[lo as int]);
                assert(f[1] == v@[lo + 1]);
                assert(f[2] == v@[lo + 2]);
                assert(f[3] == v@[lo + 3]);
                assert(f[4] == v@[lo + 4]);
            }
            if c0 == 'n' && c1 == 'o' && c2 == 'r' && c3 == 't' && c4 == 'h' {
                Some(Direction::North)
            } else if c0 == 's' && c1 == 'o' && c2 == 'u' && c3 == 't' && c4 == 'h' {
                Some(Direction::South)
            } else {
                None
            }
        } else {
            None
        }
    }
}

/// Turning left four times in a row, or right four times in a row, returns to
/// the starting direction; one left turn and one right turn cancel in either
/// order.
pub proof fn lemma_rotation_group(d: Direction)
    ensures
        d.spec_turn_left().spec_turn_left().spec_turn_left().spec_turn_left() == d,
        d.spec_turn_right().spec_turn_right().spec_turn_right().spec_turn_right() == d,
        d.spec_turn_left().spec_turn_right() == d,
        d.spec_turn_right().spec_turn_left() == d,
{
}

} // verus!
