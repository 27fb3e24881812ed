use vstd::prelude::*;
use vstd::string::StrSliceExecFns;
use vstd::string::StringExecFns;

use crate::direction::Direction;
use crate::direction::spec_dir_of;
use crate::errors::Axis;
use crate::errors::RoverError;
use crate::position::Position;
use crate::text::char_vec;
use crate::text::find_colon;
use crate::text::int_text;
use crate::text::int_text_val;
use crate::text::i32_text;
use crate::text::lemma_find_colon_is;
use crate::text::lemma_trim_bounds;
use crate::text::parse_i32;
use crate::text::parses_as_i32;
use crate::text::scan_colon;
use crate::text::scan_first_non_ws;
use crate::text::scan_trim_end;
use crate::text::spec_trim;

verus! {

/// The mathematical state of a rover: an unbounded coordinate pair and a
/// facing direction.
pub ghost struct RoverState {
    pub x: int,
    pub y: int,
    pub dir: Direction,
}

/// What reading an initial-state text yields: a state, or the first failure
/// of the parse pipeline together with the offending field.
pub ghost enum ParseOutcome {
    Parsed(RoverState),
    BadFormat,
    BadX(Seq<char>),
    BadY(Seq<char>),
    BadDir(Seq<char>),
}

/// The outcome of reading `s` as an initial-state text: trim surrounding
/// white space, split into exactly three `:`-delimited fields, read the two
/// coordinates as signed integers, and read the direction field.
pub open spec fn spec_create(s: Seq<char>) -> ParseOutcome {
    let t = spec_trim(s);
    let i = find_colon(t, 0);
    let j = find_colon(t, i + 1);
    let k = find_colon(t, j + 1);
    if !(i < t.len() && j < t.len() && k == t.len()) {
        ParseOutcome::BadFormat
    } else {
        let fx = t.subrange(0, i);
        let fy = t.subrange(i + 1, j);
        let fd = t.subrange(j + 1, t.len() as int);
        if !parses_as_i32(fx) {
            ParseOutcome::BadX(fx)
        } else if !parses_as_i32(fy) {
            ParseOutcome::BadY(fy)
        } else if spec_dir_of(fd) is None {
            ParseOutcome::BadDir(fd)
        } else {
            ParseOutcome::Parsed(
                RoverState {
                    x: int_text_val(fx),
                    y: int_text_val(fy),
                    dir: spec_dir_of(fd)->Some_0,
                },
            )
        }
    }
}

/// The canonical serialization of a state: decimal x, decimal y and the
/// direction letter, joined by single colons.
pub open spec fn spec_to_text(st: RoverState) -> Seq<char> {
    int_text(st.x) + seq![':'] + int_text(st.y) + seq![':'] + seq![st.dir.spec_letter()]
}

/// The state after one forward move.
pub open spec fn spec_move(st: RoverState) -> RoverState {
    RoverState { x: st.x + st.dir.spec_dx(), y: st.y + st.dir.spec_dy(), dir: st.dir }
}

/// The characters accepted as commands.
pub open spec fn valid_command(c: char) -> bool {
    c == 'M' || c == 'L' || c == 'R'
}

/// The state after one command; an unrecognized command leaves the state
/// unchanged.
pub open spec fn spec_apply(st: RoverState, c: char) -> RoverState {
    if c == 'M' {
        spec_move(st)
    } else if c == 'L' {
        RoverState { x: st.x, y: st.y, dir: st.dir.spec_turn_left() }
    } else if c == 'R' {
        RoverState { x: st.x, y: st.y, dir: st.dir.spec_turn_right() }
    } else {
        st
    }
}

/// Both coordinates are representable as `i32`.
pub open spec fn in_range(st: RoverState) -> bool {
    crate::text::fits_i32(st.x) && crate::text::fits_i32(st.y)
}

/// One command starting from `st` stays within machine coordinates. Only a
/// forward move changes a coordinate, so only `M` constrains anything.
pub open spec fn step_ok(st: RoverState, c: char) -> bool {
    c == 'M' ==> in_range(spec_move(st))
}

/// Runs a command sequence from `st`, left to right: the final state, and the
/// first unrecognized command if one stopped the run. Commands strictly
/// before the failing one are applied; it and everything after it are not.
pub open spec fn spec_run(st: RoverState, cmds: Seq<char>) -> (RoverState, Option<char>)
    decreases cmds.len(),
{
    if cmds.len() == 0 {
        (st, None)
    } else if !valid_command(cmds[0]) {
        (st, Some(cmds[0]))
    } else {
        spec_run(spec_apply(st, cmds[0]), cmds.skip(1))
    }
}

/// Every applied step of the run stays within machine coordinates.
pub open spec fn run_ok(st: RoverState, cmds: Seq<char>) -> bool
    decreases cmds.len(),
{
    if cmds.len() == 0 {
        true
    } else if !valid_command(cmds[0]) {
        true
    } else {
        step_ok(st, cmds[0]) && run_ok(spec_apply(st, cmds[0]), cmds.skip(1))
    }
}

/// Round trip: for every state with machine-representable coordinates,
/// reading the canonical serialization back as an initial-state text yields
/// exactly that state — so a rover created from `"x:y:D"` serializes to
/// `"x:y:D"` again.
pub proof fn lemma_round_trip(st: RoverState)
    requires
        in_range(st),
    ensures
        spec_create(spec_to_text(st)) == ParseOutcome::Parsed(st),
{
    let text = spec_to_text(st);
    let ix = int_text(st.x);
    let iy = int_text(st.y);
    let l = st.dir.spec_letter();
    let i = ix.len() as int;
    let j = i + 1 + iy.len();
    crate::text::lemma_int_text_chars(st.x);
    crate::text::lemma_int_text_chars(st.y);
    assert(text.len() == j + 2);
    assert forall|k: int| 0 <= k < i implies text[k] == ix[k] by {}
    assert(text[i] == ':');
    assert forall|k: int| i + 1 <= k < j implies text[k] == iy[k - (i + 1)] by {}
    assert(text[j] == ':');
    assert(text[j + 1] == l);
    assert(!crate::text::is_whitespace_char(l));
    assert(l != ':');
    assert(text[0] == ix[0]);
    assert(text.last() == l);
    crate::text::lemma_trim_identity(text);
    assert(spec_trim(text) == text);
    crate::text::lemma_find_colon_is(text, 0, i);
    crate::text::lemma_find_colon_is(text, i + 1, j);
    crate::text::lemma_find_colon_is(text, j + 1, text.len() as int);
    assert(text.subrange(0, i) =~= ix);
    assert(text.subrange(i + 1, j) =~= iy);
    assert(text.subrange(j + 1, text.len() as int) =~= seq![l]);
    crate::text::lemma_int_text_val(st.x);
    crate::text::lemma_int_text_val(st.y);
    assert(spec_dir_of(seq![l]) == Some(st.dir)) by {
        assert(seq![l].len() == 1);
        assert(seq![l][0] == l);
        match st.dir {
            Direction::North => assert(crate::direction::lower_char('N') == 'n'),
            Direction::East => assert(crate::direction::lower_char('E') == 'e'),
            Direction::South => assert(crate::direction::lower_char('S') == 's'),
            Direction::West => assert(crate::direction::lower_char('W') == 'w'),
        }
    }
}

/// Surrounding white space never changes the outcome of reading an
/// initial-state text: a text and its trimmed form parse alike.
pub proof fn lemma_whitespace_insensitive(s: Seq<char>)
    ensures
        spec_create(s) == spec_create(spec_trim(s)),
{
    let t = spec_trim(s);
    lemma_trim_bounds(s);
    if t.len() == 0 {
        assert(spec_trim(t) =~= t);
    } else {
        let a = crate::text::first_non_ws(s, 0);
        let b = crate::text::trim_end(s);
        assert(t[0] == s[a]);
        assert(t.last() == s[b - 1]);
        crate::text::lemma_trim_end_bounds(s);
        crate::text::lemma_trim_identity(t);
    }
}

/// A grid-roaming rover: owns one position and one facing direction, and
/// mutates them by interpreting single-character movement commands.
#[derive(Clone, Copy, Debug)]
pub struct MarsRover {
    direction: Direction,
    position: Position,
}

impl View for MarsRover {
    type V = RoverState;

    closed spec fn view(&self) -> RoverState {
        RoverState { x: self.position.spec_x(), y: self.position.spec_y(), dir: self.direction }
    }
}

impl MarsRover {
    /// Creates a rover from an initial-state text `"x:y:direction"`, after
    /// trimming surrounding white space. Fails with the first error of the
    /// parse pipeline: a field-count mismatch, a bad coordinate, or a bad
    /// direction, each carrying the offending text.
    pub fn new(initial_state: &str) -> (r: Result<MarsRover, RoverError>)
        ensures
            match spec_create(initial_state@) {
                ParseOutcome::Parsed(st) => r matches Ok(rover) && rover@ == st,
                ParseOutcome::BadFormat => r matches Err(RoverError::InvalidFormat),
                ParseOutcome::BadX(txt) => (r matches Err(RoverError::InvalidCoordinate {
                    axis,
                    text,
                }) && axis == Axis::X && text@ == txt),
                ParseOutcome::BadY(txt) => (r matches Err(RoverError::InvalidCoordinate {
                    axis,
                    text,
                }) && axis == Axis::Y && text@ == txt),
                ParseOutcome::BadDir(txt) => (r matches Err(RoverError::InvalidDirection { text })
                    && text@ == txt),
            },
    {
        let ghost sq = initial_state@;
        let v = char_vec(initial_state);
        let a = scan_first_non_ws(&v);
        let b = scan_trim_end(&v);
        proof {
            lemma_trim_bounds(sq);
        }
        if a == v.len() {
            proof {
                assert(spec_trim(sq) =~= Seq::<char>::empty());
                assert(find_colon(spec_trim(sq), 0) == 0);
            }
            return Err(RoverError::InvalidFormat);
        }
        let ghost t = spec_trim(sq);
        proof {
            assert(t == sq.subrange(a as int, b as int));
        }
        let p1 = scan_colon(&v, a, b);
        proof {
            assert forall|k: int| 0 <= k < p1 - a implies t[k] != ':' by {
                assert(t[k] == sq[a + k]);
            }
            if p1 < b {
                assert(t[p1 - a] == sq[p1 as int]);
            }
            lemma_find_colon_is(t, 0, p1 - a);
        }
        if p1 == b {
            return Err(RoverError::InvalidFormat);
        }
        let p2 = scan_colon(&v, p1 + 1, b);
        proof {
            assert forall|k: int| p1 - a + 1 <= k < p2 - a implies t[k] != ':' by {
                assert(t[k] == sq[a + k]);
            }
            if p2 < b {
                assert(t[p2 - a] == sq[p2 as int]);
            }
            lemma_find_colon_is(t, p1 - a + 1, p2 - a);
        }
        if p2 == b {
            return Err(RoverError::InvalidFormat);
        }
        let p3 = scan_colon(&v, p2 + 1, b);
        proof {
            assert forall|k: int| p2 - a + 1 <= k < p3 - a implies t[k] != ':' by {
                assert(t[k] == sq[a + k]);
            }
            if p3 < b {
                assert(t[p3 - a] == sq[p3 as int]);
            }
            lemma_find_colon_is(t, p2 - a + 1, p3 - a);
        }
        if p3 < b {
            return Err(RoverError::InvalidFormat);
        }
        let ghost fx = t.subrange(0, p1 - a);
        let ghost fy = t.subrange(p1 - a + 1, p2 - a);
        let ghost fd = t.subrange(p2 - a + 1, t.len() as int);
        proof {
            assert(fx =~= sq.subrange(a as int, p1 as int));
            assert(fy =~= sq.subrange(p1 + 1, p2 as int));
            assert(fd =~= sq.subrange(p2 + 1, b as int));
        }
        let x = match parse_i32(&v, a, p1) {
            Some(x) => x,
            None => {
                let text = String::from_str(initial_state.substring_char(a, p1));
                return Err(RoverError::InvalidCoordinate { axis: Axis::X, text });
            },
        };
        let y = match parse_i32(&v, p1 + 1, p2) {
            Some(y) => y,
            None => {
                let text = String::from_str(initial_state.substring_char(p1 + 1, p2));
                return Err(RoverError::InvalidCoordinate { axis: Axis::Y, text });
            },
        };
        let dir = match Direction::parse_field(&v, p2 + 1, b) {
            Some(d) => d,
            None => {
                let text = String::from_str(initial_state.substring_char(p2 + 1, b));
                return Err(RoverError::InvalidDirection { text });
            },
        };
        let rover = MarsRover { direction: dir, position: Position::new(x, y) };
        Ok(rover)
    }

    /// Reads the current position.
    pub fn position(&self) -> (p: Position)
        ensures
            p.spec_x() == self@.x,
            p.spec_y() == self@.y,
    {
        self.position
    }

    /// Reads the current facing direction.
    pub fn direction(&self) -> (d: Direction)
        ensures
            d == self@.dir,
    {
        self.direction
    }

    /// Moves the rover one step in its current direction: the direction's
    /// delta is added componentwise to the position, and the direction is
    /// unchanged.
    pub fn move_forward(&mut self)
        requires
            in_range(spec_move(old(self)@)),
        ensures
            final(self)@ == spec_move(old(self)@),
    {
        let (dx, dy) = self.direction.get_delta();
        let nx = self.position.x() + dx;
        let ny = self.position.y() + dy;
        self.position.set_x(nx);
        self.position.set_y(ny);
    }

    /// Turns the rover 90 degrees counter-clockwise; the position is
    /// unchanged.
    pub fn turn_left(&mut self)
        ensures
            final(self)@.dir == old(self)@.dir.spec_turn_left(),
            final(self)@.x == old(self)@.x,
            final(self)@.y == old(self)@.y,
    {
        self.direction = self.direction.turn_left();
    }

    /// Turns the rover 90 degrees clockwise; the position is unchanged.
    pub fn turn_right(&mut self)
        ensures
            final(self)@.dir == old(self)@.dir.spec_turn_right(),
            final(self)@.x == old(self)@.x,
            final(self)@.y == old(self)@.y,
    {
        self.direction = self.direction.turn_right();
    }

    /// Applies a single command: `M` moves forward, `L` turns left, `R` turns
    /// right. Any other character fails with `InvalidCommand` naming it and
    /// leaves the rover unmodified.
    pub fn command(&mut self, command: char) -> (r: Result<(), RoverError>)
        requires
            step_ok(old(self)@, command),
        ensures
            valid_command(command) ==> r is Ok && final(self)@ == spec_apply(old(self)@, command),
            !valid_command(command) ==> final(self)@ == old(self)@,
            !valid_command(command) ==> (r matches Err(RoverError::InvalidCommand { character })
                && character == command),
    {
        if command == 'M' {
            self.move_forward();
            Ok(())
        } else if command == 'L' {
            self.turn_left();
            Ok(())
        } else if command == 'R' {
            self.turn_right();
            Ok(())
        } else {
            Err(RoverError::InvalidCommand { character: command })
        }
    }

    /// Applies a command sequence left to right. Processing stops at the
    /// first unrecognized character: mutations from the commands strictly
    /// before it are retained, it and everything after it are never applied,
    /// and the error names it. An empty sequence is a no-op success.
    pub fn execute_commands(&mut self, commands: &str) -> (r: Result<(), RoverError>)
        requires
            run_ok(old(self)@, commands@),
        ensures
            final(self)@ == spec_run(old(self)@, commands@).0,
            match r {
                Ok(_) => spec_run(old(self)@, commands@).1 is None,
                Err(e) => (e matches RoverError::InvalidCommand { character } && Some(character)
                    == spec_run(old(self)@, commands@).1),
            },
    {
        let ghost cs = commands@;
        let ghost orig = self@;
        let v = char_vec(commands);
        let mut idx: usize = 0;
        proof {
            assert(cs.skip(0) =~= cs);
        }
        while idx < v.len()
            invariant
                idx <= v.len(),
                v@ == cs,
                cs == commands@,
                orig == old(self)@,
                spec_run(orig, cs) == spec_run(self@, cs.skip(idx as int)),
                run_ok(self@, cs.skip(idx as int)),
            decreases v.len() - idx,
        {
            let c = v[idx];
            proof {
                assert(cs.skip(idx as int)[0] == cs[idx as int]);
                assert(cs.skip(idx as int).skip(1) =~= cs.skip(idx as int + 1));
            }
            match self.command(c) {
                Ok(_) => {},
                Err(e) => {
                    return Err(e);
                },
            }
            idx += 1;
        }
        proof {
            assert(cs.skip(idx as int) =~= Seq::<char>::empty());
        }
        Ok(())
    }

    /// Serializes the rover as `"x:y:D"`: decimal coordinates and the
    /// canonical direction letter, with no surrounding white space.
    pub fn to_text(&self) -> (s: String)
        ensures
            s@ == spec_to_text(self@),
    {
        let mut s = i32_text(self.position.x());
        s.append(":");
        let sy = i32_text(self.position.y());
        s.append(sy.as_str());
        s.append(":");
        s.append(self.direction.canonical_letter());
        proof {
            reveal_strlit(":");
            assert(s@ =~= spec_to_text(self@));
        }
        s
    }
}

impl Default for MarsRover {
    /// A rover constructed without explicit input: position (0, 0), facing
    /// North.
    fn default() -> (r: MarsRover)
        ensures
            r@ == (RoverState { x: 0, y: 0, dir: Direction::North }),
    {
        MarsRover { direction: Direction::North, position: Position::new(0, 0) }
    }
}

} // verus!
