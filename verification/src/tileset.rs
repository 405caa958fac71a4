use vstd::prelude::*;

use crate::cell::spec_parse_cell;
use crate::cell::TileCell;
use crate::escalator::EscalatorLocation;
use crate::grid_coord::TileGridCoord;
use crate::grid_coord::GRID_WIDTH;
use crate::lines::chars_of;
use crate::lines::line_views;
use crate::lines::spec_lines;
use crate::lines::split_lines;
use crate::lines::string_from_chars;
use crate::lines::vec_char_range;
use crate::tile::esc_views;
use crate::tile::Tile;
use crate::tile::TileView;
use crate::wall::spec_parse_wall;
use crate::wall::WallState;

verus! {

/// Which of the two alternating row shapes of a tile's body a line holds.
#[derive(Debug, Clone, Copy, PartialEq, Eq, Structural)]
pub enum RowType {
    Wall,
    Cell,
}

/// A structured description of why a tileset failed to parse.
#[derive(Debug)]
pub enum TileParsingError {
    /// A tileset entry did not begin with the `@` name leader.
    InvalidNameLeader { line_number: u32, line: String },
    /// The input ended before a tile's body was complete.
    IncompleteTile { line_number: u32 },
    /// A tile name held non-ASCII characters.
    InvalidTileName { line_number: u32, name: String },
    /// More wall or cell rows than the fixed grid allows.
    WrongNumberOfRows { line_number: u32, num_rows: u32 },
    /// A row held characters beyond what its shape consumes.
    RowHasExtra { line_number: u32, col_number: u32, line: String },
    /// A row ended before its shape was fully consumed.
    IncompleteLine { line_number: u32, line: String },
    /// A single character did not belong to its slot's alphabet.
    ItemParse {
        line_number: u32,
        col_number: u32,
        line: String,
        char: char,
        name: &'static str,
        allowed: &'static str,
    },
    /// A malformed escalator declaration.
    InvalidEscalator(InvalidEscalator),
    /// Sentinel: no tile remains to parse.
    NoMoreTiles,
}

/// The reason an escalator declaration was rejected.
#[derive(Debug)]
pub struct InvalidEscalator {
    line_number: u32,
    line: String,
    msg: &'static str,
}

/// The mathematical content of an [`InvalidEscalator`].
#[verifier::ext_equal]
pub struct InvalidEscalatorView {
    pub line_number: u32,
    pub line: Seq<char>,
    pub msg: Seq<char>,
}

impl View for InvalidEscalator {
    type V = InvalidEscalatorView;

    closed spec fn view(&self) -> InvalidEscalatorView {
        InvalidEscalatorView { line_number: self.line_number, line: self.line@, msg: self.msg@ }
    }
}

impl InvalidEscalator {
    /// The same failure with another message.
    pub fn with_msg(&self, msg: &'static str) -> (r: Self)
        ensures
            r@ == (InvalidEscalatorView { msg: msg@, ..self@ }),
    {
        InvalidEscalator { line_number: self.line_number, line: self.line.clone(), msg }
    }
}

/// The mathematical content of a [`TileParsingError`].
#[verifier::ext_equal]
pub enum TileParsingErrorView {
    InvalidNameLeader { line_number: u32, line: Seq<char> },
    IncompleteTile { line_number: u32 },
    InvalidTileName { line_number: u32, name: Seq<char> },
    WrongNumberOfRows { line_number: u32, num_rows: u32 },
    RowHasExtra { line_number: u32, col_number: u32, line: Seq<char> },
    IncompleteLine { line_number: u32, line: Seq<char> },
    ItemParse {
        line_number: u32,
        col_number: u32,
        line: Seq<char>,
        char: char,
        name: Seq<char>,
        allowed: Seq<char>,
    },
    InvalidEscalator(InvalidEscalatorView),
    NoMoreTiles,
}

impl View for TileParsingError {
    type V = TileParsingErrorView;

    closed spec fn view(&self) -> TileParsingErrorView {
        match self {
            TileParsingError::InvalidNameLeader { line_number, line } => {
                TileParsingErrorView::InvalidNameLeader { line_number: *line_number, line: line@ }
            },
            TileParsingError::IncompleteTile { line_number } => {
                TileParsingErrorView::IncompleteTile { line_number: *line_number }
            },
            TileParsingError::InvalidTileName { line_number, name } => {
                TileParsingErrorView::InvalidTileName { line_number: *line_number, name: name@ }
            },
            TileParsingError::WrongNumberOfRows { line_number, num_rows } => {
                TileParsingErrorView::WrongNumberOfRows {
                    line_number: *line_number,
                    num_rows: *num_rows,
                }
            },
            TileParsingError::RowHasExtra { line_number, col_number, line } => {
                TileParsingErrorView::RowHasExtra {
                    line_number: *line_number,
                    col_number: *col_number,
                    line: line@,
                }
            },
            TileParsingError::IncompleteLine { line_number, line } => {
                TileParsingErrorView::IncompleteLine { line_number: *line_number, line: line@ }
            },
            TileParsingError::ItemParse { line_number, col_number, line, char, name, allowed } => {
                TileParsingErrorView::ItemParse {
                    line_number: *line_number,
                    col_number: *col_number,
                    line: line@,
                    char: *char,
                    name: name@,
                    allowed: allowed@,
                }
            },
            TileParsingError::InvalidEscalator(e) => {
                TileParsingErrorView::InvalidEscalator(e@)
            },
            TileParsingError::NoMoreTiles => TileParsingErrorView::NoMoreTiles,
        }
    }
}

/// Relies on `<str as PartialEq>::eq`: character-for-character comparison.
#[verifier::external_body]
fn str_eq(a: &str, b: &str) -> (r: bool)
    ensures
        r == (a@ == b@),
{
    a == b
}

/// Character-for-character comparison of owned strings.
fn string_eq(a: &String, b: &String) -> (r: bool)
    ensures
        r == (a@ == b@),
{
    a.eq(b)
}

impl PartialEq for InvalidEscalator {
    /// Failures are equal when their views are.
    fn eq(&self, other: &InvalidEscalator) -> (r: bool) {
        let r = self.line_number == other.line_number && string_eq(&self.line, &other.line)
            && str_eq(self.msg, other.msg);
        proof {
            if r {
                assert(self@ =~= other@);
            }
        }
        r
    }
}

impl vstd::std_specs::cmp::PartialEqSpecImpl for InvalidEscalator {
    open spec fn obeys_eq_spec() -> bool {
        true
    }

    open spec fn eq_spec(&self, other: &InvalidEscalator) -> bool {
        self@ == other@
    }
}

impl PartialEq for TileParsingError {
    /// Errors are equal when their views are.
    fn eq(&self, other: &TileParsingError) -> (r: bool) {
        let r = match (self, other) {
            (
                TileParsingError::InvalidNameLeader { line_number: n1, line: l1 },
                TileParsingError::InvalidNameLeader { line_number: n2, line: l2 },
            ) => *n1 == *n2 && string_eq(l1, l2),
            (
                TileParsingError::IncompleteTile { line_number: n1 },
                TileParsingError::IncompleteTile { line_number: n2 },
            ) => *n1 == *n2,
            (
                TileParsingError::InvalidTileName { line_number: n1, name: m1 },
                TileParsingError::InvalidTileName { line_number: n2, name: m2 },
            ) => *n1 == *n2 && string_eq(m1, m2),
            (
                TileParsingError::WrongNumberOfRows { line_number: n1, num_rows: r1 },
                TileParsingError::WrongNumberOfRows { line_number: n2, num_rows: r2 },
            ) => *n1 == *n2 && *r1 == *r2,
            (
                TileParsingError::RowHasExtra { line_number: n1, col_number: c1, line: l1 },
                TileParsingError::RowHasExtra { line_number: n2, col_number: c2, line: l2 },
            ) => *n1 == *n2 && *c1 == *c2 && string_eq(l1, l2),
            (
                TileParsingError::IncompleteLine { line_number: n1, line: l1 },
                TileParsingError::IncompleteLine { line_number: n2, line: l2 },
            ) => *n1 == *n2 && string_eq(l1, l2),
            (
                TileParsingError::ItemParse {
                    line_number: n1,
                    col_number: c1,
                    line: l1,
                    char: ch1,
                    name: m1,
                    allowed: a1,
                },
                TileParsingError::ItemParse {
                    line_number: n2,
                    col_number: c2,
                    line: l2,
                    char: ch2,
                    name: m2,
                    allowed: a2,
                },
            ) => *n1 == *n2 && *c1 == *c2 && string_eq(l1, l2) && *ch1 == *ch2 && str_eq(m1, m2)
                && str_eq(a1, a2),
            (TileParsingError::InvalidEscalator(e1), TileParsingError::InvalidEscalator(e2)) => e1.eq(
                e2,
            ),
            (TileParsingError::NoMoreTiles, TileParsingError::NoMoreTiles) => true,
            _ => false,
        };
        proof {
            if r {
                assert(self@ =~= other@);
            }
        }
        r
    }
}

impl vstd::std_specs::cmp::PartialEqSpecImpl for TileParsingError {
    open spec fn obeys_eq_spec() -> bool {
        true
    }

    open spec fn eq_spec(&self, other: &TileParsingError) -> bool {
        self@ == other@
    }
}

/// The characters `char::is_whitespace` accepts: the Unicode `White_Space`
/// set, fixed by the standard.
pub open spec fn spec_is_whitespace(c: char) -> bool {
    ||| c == ' '
    ||| c == '\t'
    ||| c == '\n'
    ||| c == '\u{0B}'
    ||| c == '\u{0C}'
    ||| c == '\r'
    ||| c == '\u{85}'
    ||| c == '\u{A0}'
    ||| c == '\u{1680}'
    ||| ('\u{2000}' <= c && c <= '\u{200A}')
    ||| c == '\u{2028}'
    ||| c == '\u{2029}'
    ||| c == '\u{202F}'
    ||| c == '\u{205F}'
    ||| c == '\u{3000}'
}

fn is_whitespace_char(c: char) -> (r: bool)
    ensures
        r == spec_is_whitespace(c),
{
    c == ' ' || c == '\t' || c == '\n' || c == '\u{0B}' || c == '\u{0C}' || c == '\r' || c
        == '\u{85}' || c == '\u{A0}' || c == '\u{1680}' || ('\u{2000}' <= c && c <= '\u{200A}') || c
        == '\u{2028}' || c == '\u{2029}' || c == '\u{202F}' || c == '\u{205F}' || c == '\u{3000}'
}

/// `s` with leading whitespace removed.
pub open spec fn spec_trim_start(s: Seq<char>) -> Seq<char>
    decreases s.len(),
{
    if s.len() > 0 && spec_is_whitespace(s[0]) {
        spec_trim_start(s.drop_first())
    } else {
        s
    }
}

/// `s` with trailing whitespace removed.
pub open spec fn spec_trim_end(s: Seq<char>) -> Seq<char>
    decreases s.len(),
{
    if s.len() > 0 && spec_is_whitespace(s.last()) {
        spec_trim_end(s.drop_last())
    } else {
        s
    }
}

/// `s` with surrounding whitespace removed.
pub open spec fn spec_trim(s: Seq<char>) -> Seq<char> {
    spec_trim_end(spec_trim_start(s))
}

/// The slice of `v` with surrounding whitespace removed.
fn trim_chars(v: &Vec<char>) -> (r: Vec<char>)
    ensures
        r@ == spec_trim(v@),
{
    let n = v.len();
    let mut start: usize = 0;
    proof {
        assert(v@.subrange(0, n as int) =~= v@);
    }
    while start < n && is_whitespace_char(v[start])
        invariant
            n == v@.len(),
            start <= n,
            spec_trim_start(v@) == spec_trim_start(v@.subrange(start as int, n as int)),
        decreases n - start,
    {
        proof {
            let cur = v@.subrange(start as int, n as int);
            assert(cur.drop_first() =~= v@.subrange(start as int + 1, n as int));
        }
        start += 1;
    }
    proof {
        let cur = v@.subrange(start as int, n as int);
        if cur.len() > 0 {
            assert(cur[0] == v@[start as int]);
        }
        assert(spec_trim_start(v@) == cur);
    }
    let mut end: usize = n;
    while end > start && is_whitespace_char(v[end - 1])
        invariant
            n == v@.len(),
            start <= end <= n,
            spec_trim_start(v@) == v@.subrange(start as int, n as int),
            spec_trim_end(v@.subrange(start as int, n as int)) == spec_trim_end(
                v@.subrange(start as int, end as int),
            ),
        decreases end,
    {
        proof {
            let cur = v@.subrange(start as int, end as int);
            assert(cur.last() == v@[end - 1]);
            assert(cur.drop_last() =~= v@.subrange(start as int, end as int - 1));
        }
        end -= 1;
    }
    proof {
        let cur = v@.subrange(start as int, end as int);
        if cur.len() > 0 {
            assert(cur.last() == v@[end - 1]);
        }
        assert(spec_trim_end(cur) == cur);
    }
    vec_char_range(v, start, end)
}

/// Index of the first comma in `s`, or `s.len()` when there is none.
pub open spec fn spec_first_comma(s: Seq<char>) -> int
    decreases s.len(),
{
    if s.len() == 0 {
        0
    } else if s[0] == ',' {
        0
    } else {
        1 + spec_first_comma(s.drop_first())
    }
}

proof fn lemma_first_comma(s: Seq<char>, i: int)
    requires
        0 <= i <= s.len(),
        forall|k: int| 0 <= k < i ==> s[k] != ',',
        i < s.len() ==> s[i] == ',',
    ensures
        spec_first_comma(s) == i,
    decreases s.len(),
{
    if s.len() == 0 {
    } else if s[0] == ',' {
        assert(i == 0);
    } else {
        let d = s.drop_first();
        assert forall|k: int| 0 <= k < i - 1 implies d[k] != ',' by {
            assert(s[k + 1] != ',');
        }
        lemma_first_comma(d, i - 1);
    }
}

/// The comma-separated pieces of `s`: always at least one piece, and a
/// trailing comma opens a final empty piece.
pub open spec fn spec_split_commas(s: Seq<char>) -> Seq<Seq<char>>
    decreases s.len(),
{
    let i = spec_first_comma(s);
    if 0 <= i < s.len() {
        seq![s.subrange(0, i)] + spec_split_commas(s.subrange(i + 1, s.len() as int))
    } else {
        seq![s]
    }
}

/// Splits `v` at each comma.
fn split_commas(v: &Vec<char>) -> (r: Vec<Vec<char>>)
    ensures
        line_views(r@) == spec_split_commas(v@),
        r@.len() >= 1,
{
    let n = v.len();
    let mut r: Vec<Vec<char>> = Vec::new();
    let mut start: usize = 0;
    let mut i: usize = 0;
    proof {
        assert(v@.subrange(0, n as int) =~= v@);
        assert(line_views(r@) + spec_split_commas(v@) =~= spec_split_commas(v@));
    }
    while i < n
        invariant
            n == v@.len(),
            start <= i <= n,
            forall|k: int| start <= k < i ==> v@[k] != ',',
            spec_split_commas(v@) =~= line_views(r@) + spec_split_commas(
                v@.subrange(start as int, n as int),
            ),
        decreases n - i,
    {
        if v[i] == ',' {
            let ghost rest = v@.subrange(start as int, n as int);
            let piece = vec_char_range(v, start, i);
            proof {
                assert forall|k: int| 0 <= k < i - start implies rest[k] != ',' by {
                    assert(v@[start + k] != ',');
                }
                assert(rest[i - start] == ',');
                lemma_first_comma(rest, i - start);
                assert(rest.subrange(0, i - start as int) =~= v@.subrange(start as int, i as int));
                assert(rest.subrange(i - start + 1, rest.len() as int) =~= v@.subrange(
                    i + 1,
                    n as int,
                ));
            }
            let ghost r_old = r@;
            r.push(piece);
            proof {
                assert(line_views(r@) =~= line_views(r_old).push(piece@));
                assert(line_views(r_old) + spec_split_commas(rest) =~= line_views(r@)
                    + spec_split_commas(v@.subrange(i + 1, n as int)));
            }
            start = i + 1;
        }
        i += 1;
    }
    let ghost rest = v@.subrange(start as int, n as int);
    proof {
        assert forall|k: int| 0 <= k < rest.len() implies rest[k] != ',' by {
            assert(v@[start + k] != ',');
        }
        lemma_first_comma(rest, rest.len() as int);
        assert(spec_split_commas(rest) =~= seq![rest]);
    }
    let piece = vec_char_range(v, start, n);
    let ghost r_old = r@;
    r.push(piece);
    proof {
        assert(line_views(r@) =~= line_views(r_old).push(piece@));
        assert(line_views(r@) =~= spec_split_commas(v@));
    }
    r
}

/// The successor of a line number, wrapping at the counter's limit.
pub open spec fn spec_add1(n: u32) -> u32 {
    if n == u32::MAX {
        0
    } else {
        (n + 1) as u32
    }
}

fn add1(n: u32) -> (r: u32)
    ensures
        r == spec_add1(n),
{
    if n == u32::MAX {
        0
    } else {
        n + 1
    }
}

/// Whether the character at position `k` of a row of type `rt` belongs to
/// that slot's alphabet. Wall rows alternate placeholder `+` and wall
/// characters; cell rows alternate wall and cell characters.
pub open spec fn spec_row_item_ok(rt: RowType, k: int, c: char) -> bool {
    match rt {
        RowType::Wall => if k % 2 == 0 {
            c == '+'
        } else {
            spec_parse_wall(c) is Some
        },
        RowType::Cell => if k % 2 == 0 {
            spec_parse_wall(c) is Some
        } else {
            spec_parse_cell(c) is Some
        },
    }
}

/// The token name reported when position `k` of a row of type `rt` fails.
pub open spec fn spec_row_item_name(rt: RowType, k: int) -> Seq<char> {
    match rt {
        RowType::Wall => if k % 2 == 0 {
            "Placeholder"@
        } else {
            "Wall"@
        },
        RowType::Cell => if k % 2 == 0 {
            "Wall"@
        } else {
            "TileCell"@
        },
    }
}

/// The allowed-character set reported when position `k` of a row of type
/// `rt` fails.
pub open spec fn spec_row_item_allowed(rt: RowType, k: int) -> Seq<char> {
    match rt {
        RowType::Wall => if k % 2 == 0 {
            "+"@
        } else {
            " -|^5678"@
        },
        RowType::Cell => if k % 2 == 0 {
            " -|^5678"@
        } else {
            " 1234GOYPgoypctb"@
        },
    }
}

/// Parsing a row of type `rt` from position `k` on: each of the nine slots
/// must hold a character of its alphabet, the line must end with the ninth,
/// and the first offence is reported. On success, the walls and cells
/// gathered from position `k` on.
pub open spec fn spec_parse_row_from(rt: RowType, line: Seq<char>, n: u32, k: int) -> Result<
    (Seq<WallState>, Seq<TileCell>),
    TileParsingErrorView,
>
    decreases 9 - k,
{
    if k < 0 || k >= 9 {
        if line.len() > 9 {
            Err(TileParsingErrorView::RowHasExtra { line_number: n, col_number: 9, line })
        } else {
            Ok((Seq::empty(), Seq::empty()))
        }
    } else if k >= line.len() {
        Err(TileParsingErrorView::IncompleteLine { line_number: n, line })
    } else if !spec_row_item_ok(rt, k, line[k]) {
        Err(
            TileParsingErrorView::ItemParse {
                line_number: spec_add1(n),
                col_number: k as u32,
                line,
                char: line[k],
                name: spec_row_item_name(rt, k),
                allowed: spec_row_item_allowed(rt, k),
            },
        )
    } else {
        match spec_parse_row_from(rt, line, n, k + 1) {
            Err(e) => Err(e),
            Ok((ws, cs)) => match rt {
                RowType::Wall => if k % 2 == 1 {
                    Ok((seq![spec_parse_wall(line[k]).unwrap()] + ws, cs))
                } else {
                    Ok((ws, cs))
                },
                RowType::Cell => if k % 2 == 0 {
                    Ok((seq![spec_parse_wall(line[k]).unwrap()] + ws, cs))
                } else {
                    Ok((ws, seq![spec_parse_cell(line[k]).unwrap()] + cs))
                },
            },
        }
    }
}

/// Parsing one full row: a wall row yields four walls, a cell row five
/// walls and four cells.
pub open spec fn spec_parse_row(rt: RowType, line: Seq<char>, n: u32) -> Result<
    (Seq<WallState>, Seq<TileCell>),
    TileParsingErrorView,
> {
    spec_parse_row_from(rt, line, n, 0)
}

/// Gathered tokens so far combined with the outcome of the rest of a row.
pub open spec fn spec_row_combine(
    ws: Seq<WallState>,
    cs: Seq<TileCell>,
    rest: Result<(Seq<WallState>, Seq<TileCell>), TileParsingErrorView>,
) -> Result<(Seq<WallState>, Seq<TileCell>), TileParsingErrorView> {
    match rest {
        Err(e) => Err(e),
        Ok((w2, c2)) => Ok((ws + w2, cs + c2)),
    }
}

/// Parses one row of a tile's body.
fn parse_row(rt: RowType, line: &Vec<char>, n: u32) -> (r: Result<
    (Vec<WallState>, Vec<TileCell>),
    TileParsingError,
>)
    ensures
        match r {
            Ok((ws, cs)) => {
                &&& spec_parse_row(rt, line@, n) == Ok::<_, TileParsingErrorView>((ws@, cs@))
                &&& rt == RowType::Wall ==> ws@.len() == 4 && cs@.len() == 0
                &&& rt == RowType::Cell ==> ws@.len() == 5 && cs@.len() == 4
            },
            Err(e) => spec_parse_row(rt, line@, n) == Err::<(Seq<WallState>, Seq<TileCell>), _>(
                e@,
            ),
        },
{
    let mut ws: Vec<WallState> = Vec::new();
    let mut cs: Vec<TileCell> = Vec::new();
    let mut k: usize = 0;
    proof {
        assert(spec_row_combine(ws@, cs@, spec_parse_row_from(rt, line@, n, 0))
            == spec_parse_row(rt, line@, n)) by {
            match spec_parse_row_from(rt, line@, n, 0) {
                Err(e) => {},
                Ok((w2, c2)) => {
                    assert(ws@ + w2 =~= w2);
                    assert(cs@ + c2 =~= c2);
                },
            }
        }
    }
    while k < 9
        invariant
            k <= 9,
            spec_parse_row(rt, line@, n) == spec_row_combine(
                ws@,
                cs@,
                spec_parse_row_from(rt, line@, n, k as int),
            ),
            rt == RowType::Wall ==> ws@.len() == k / 2 && cs@.len() == 0,
            rt == RowType::Cell ==> ws@.len() == (k + 1) / 2 && cs@.len() == k / 2,
        decreases 9 - k,
    {
        if k >= line.len() {
            return Err(
                TileParsingError::IncompleteLine {
                    line_number: n,
                    line: string_from_chars(line),
                },
            );
        }
        let c = line[k];
        let is_even = k % 2 == 0;
        let token_ok: bool = match rt {
            RowType::Wall => if is_even {
                c == '+'
            } else {
                WallState::parse(c).is_some()
            },
            RowType::Cell => if is_even {
                WallState::parse(c).is_some()
            } else {
                TileCell::parse(c).is_some()
            },
        };
        if !token_ok {
            let name: &'static str = match rt {
                RowType::Wall => if is_even {
                    "Placeholder"
                } else {
                    "Wall"
                },
                RowType::Cell => if is_even {
                    "Wall"
                } else {
                    "TileCell"
                },
            };
            let allowed: &'static str = match rt {
                RowType::Wall => if is_even {
                    "+"
                } else {
                    " -|^5678"
                },
                RowType::Cell => if is_even {
                    " -|^5678"
                } else {
                    " 1234GOYPgoypctb"
                },
            };
            return Err(
                TileParsingError::ItemParse {
                    line_number: add1(n),
                    col_number: k as u32,
                    line: string_from_chars(line),
                    char: c,
                    name,
                    allowed,
                },
            );
        }
        let ghost ws_old = ws@;
        let ghost cs_old = cs@;
        match rt {
            RowType::Wall => {
                if !is_even {
                    let w = match WallState::parse(c) {
                        Some(w) => w,
                        None => {
                            proof {
                                assert(false);
                            }
                            WallState::Open
                        },
                    };
                    ws.push(w);
                }
            },
            RowType::Cell => {
                if is_even {
                    let w = match WallState::parse(c) {
                        Some(w) => w,
                        None => {
                            proof {
                                assert(false);
                            }
                            WallState::Open
                        },
                    };
                    ws.push(w);
                } else {
                    let cl = match TileCell::parse(c) {
                        Some(cl) => cl,
                        None => {
                            proof {
                                assert(false);
                            }
                            TileCell::Empty
                        },
                    };
                    cs.push(cl);
                }
            },
        }
        proof {
            let rest_old = spec_parse_row_from(rt, line@, n, k as int);
            let rest_new = spec_parse_row_from(rt, line@, n, k as int + 1);
            assert(spec_row_combine(ws_old, cs_old, rest_old) == spec_row_combine(
                ws@,
                cs@,
                rest_new,
            )) by {
                match rest_new {
                    Err(e) => {},
                    Ok((w2, c2)) => {
                        match rt {
                            RowType::Wall => {
                                if k % 2 == 1 {
                                    assert(ws_old + (seq![
                                        spec_parse_wall(line@[k as int]).unwrap(),
                                    ] + w2) =~= ws@ + w2);
                                } else {
                                    assert(ws_old == ws@ && cs_old == cs@);
                                }
                            },
                            RowType::Cell => {
                                if k % 2 == 0 {
                                    assert(ws_old + (seq![
                                        spec_parse_wall(line@[k as int]).unwrap(),
                                    ] + w2) =~= ws@ + w2);
                                } else {
                                    assert(cs_old + (seq![
                                        spec_parse_cell(line@[k as int]).unwrap(),
                                    ] + c2) =~= cs@ + c2);
                                }
                            },
                        }
                    },
                }
            }
        }
        k += 1;
    }
    if line.len() > 9 {
        return Err(
            TileParsingError::RowHasExtra {
                line_number: n,
                col_number: 9,
                line: string_from_chars(line),
            },
        );
    }
    proof {
        assert(ws@ + Seq::<WallState>::empty() =~= ws@);
        assert(cs@ + Seq::<TileCell>::empty() =~= cs@);
    }
    Ok((ws, cs))
}

/// A line under scrutiny and its 1-based position in the input.
pub struct ParseContext<'a> {
    pub line: &'a Vec<char>,
    pub line_number: u32,
}

/// The value of a decimal digit character.
pub open spec fn spec_digit(c: char) -> Option<u8> {
    match c {
        '0' => Some(0u8),
        '1' => Some(1u8),
        '2' => Some(2u8),
        '3' => Some(3u8),
        '4' => Some(4u8),
        '5' => Some(5u8),
        '6' => Some(6u8),
        '7' => Some(7u8),
        '8' => Some(8u8),
        '9' => Some(9u8),
        _ => None,
    }
}

fn parse_digit(c: char) -> (r: Option<u8>)
    ensures
        r == spec_digit(c),
{
    match c {
        '0' => Some(0u8),
        '1' => Some(1u8),
        '2' => Some(2u8),
        '3' => Some(3u8),
        '4' => Some(4u8),
        '5' => Some(5u8),
        '6' => Some(6u8),
        '7' => Some(7u8),
        '8' => Some(8u8),
        '9' => Some(9u8),
        _ => None,
    }
}

/// One trimmed escalator hunk `x1y1-x2y2` as a coordinate pair, or the
/// message naming the first offence: bad shape, a non-digit, an
/// out-of-range coordinate, or equal endpoints.
pub open spec fn spec_parse_hunk(h0: Seq<char>) -> Result<((u8, u8), (u8, u8)), Seq<char>> {
    let h = spec_trim(h0);
    if !(h.len() == 5 && h[2] == '-') {
        Err("invalid escalator hunk"@)
    } else if spec_digit(h[0]) is None || spec_digit(h[1]) is None || spec_digit(h[3]) is None
        || spec_digit(h[4]) is None {
        Err("Unable to parse digit"@)
    } else {
        let a = spec_digit(h[0]).unwrap();
        let b = spec_digit(h[1]).unwrap();
        let c = spec_digit(h[3]).unwrap();
        let d = spec_digit(h[4]).unwrap();
        if !(a < GRID_WIDTH && b < GRID_WIDTH) {
            Err("Invalid tile coordinates"@)
        } else if !(c < GRID_WIDTH && d < GRID_WIDTH) {
            Err("Invalid tile coordinates"@)
        } else if a == c && b == d {
            Err("escalator endpoints must differ"@)
        } else {
            Ok(((a, b), (c, d)))
        }
    }
}

/// The hunks from `idx` on as coordinate pairs; at most four in a tile.
pub open spec fn spec_parse_hunks(hunks: Seq<Seq<char>>, idx: int) -> Result<
    Seq<((u8, u8), (u8, u8))>,
    Seq<char>,
>
    decreases hunks.len() - idx,
{
    if idx < 0 || idx >= hunks.len() {
        Ok(Seq::empty())
    } else {
        match spec_parse_hunk(hunks[idx]) {
            Err(m) => Err(m),
            Ok(e) => if idx >= 4 {
                Err("Exceeded max escalators"@)
            } else {
                match spec_parse_hunks(hunks, idx + 1) {
                    Err(m) => Err(m),
                    Ok(rest) => Ok(seq![e] + rest),
                }
            },
        }
    }
}

/// The escalator line after a tile's body: empty means no escalators, and
/// otherwise the line must read `E:` followed by comma-separated hunks.
pub open spec fn spec_parse_elevator_line(line: Seq<char>, n: u32) -> Result<
    Seq<((u8, u8), (u8, u8))>,
    InvalidEscalatorView,
> {
    if line.len() == 0 {
        Ok(Seq::empty())
    } else if line.len() >= 2 && line[0] == 'E' && line[1] == ':' {
        match spec_parse_hunks(spec_split_commas(line.subrange(2, line.len() as int)), 0) {
            Ok(s) => Ok(s),
            Err(m) => Err(InvalidEscalatorView { line_number: n, line, msg: m }),
        }
    } else {
        Err(InvalidEscalatorView { line_number: n, line, msg: "Invalid prefix"@ })
    }
}

/// Parses one trimmed escalator hunk.
fn parse_hunk(h0: &Vec<char>) -> (r: Result<EscalatorLocation, &'static str>)
    ensures
        match r {
            Ok(e) => spec_parse_hunk(h0@) == Ok::<_, Seq<char>>(e@) && e.wf(),
            Err(m) => spec_parse_hunk(h0@) == Err::<((u8, u8), (u8, u8)), _>(m@),
        },
{
    let h = trim_chars(h0);
    if !(h.len() == 5 && h[2] == '-') {
        return Err("invalid escalator hunk");
    }
    let da = parse_digit(h[0]);
    let db = parse_digit(h[1]);
    let dc = parse_digit(h[3]);
    let dd = parse_digit(h[4]);
    if da.is_none() || db.is_none() || dc.is_none() || dd.is_none() {
        return Err("Unable to parse digit");
    }
    let a = da.unwrap();
    let b = db.unwrap();
    let c = dc.unwrap();
    let d = dd.unwrap();
    if !(a < GRID_WIDTH && b < GRID_WIDTH) {
        return Err("Invalid tile coordinates");
    }
    if !(c < GRID_WIDTH && d < GRID_WIDTH) {
        return Err("Invalid tile coordinates");
    }
    if a == c && b == d {
        return Err("escalator endpoints must differ");
    }
    let p1 = match TileGridCoord::new(a, b) {
        Some(p) => p,
        None => {
            proof {
                assert(false);
            }
            return Err("Invalid tile coordinates");
        },
    };
    let p2 = match TileGridCoord::new(c, d) {
        Some(p) => p,
        None => {
            proof {
                assert(false);
            }
            return Err("Invalid tile coordinates");
        },
    };
    Ok(EscalatorLocation([p1, p2]))
}

/// Gathered escalators so far combined with the outcome for the rest.
pub open spec fn spec_hunks_combine(
    acc: Seq<((u8, u8), (u8, u8))>,
    rest: Result<Seq<((u8, u8), (u8, u8))>, Seq<char>>,
) -> Result<Seq<((u8, u8), (u8, u8))>, Seq<char>> {
    match rest {
        Err(m) => Err(m),
        Ok(r) => Ok(acc + r),
    }
}

/// Parses the escalator line after a tile's body.
fn elevators_from_line(ctx: &ParseContext) -> (r: Result<Vec<EscalatorLocation>, InvalidEscalator>)
    ensures
        match r {
            Ok(v) => {
                &&& spec_parse_elevator_line(ctx.line@, ctx.line_number) == Ok::<
                    _,
                    InvalidEscalatorView,
                >(esc_views(v@))
                &&& v@.len() <= 4
                &&& forall|i: int| 0 <= i < v@.len() ==> (#[trigger] v@[i]).wf()
            },
            Err(e) => spec_parse_elevator_line(ctx.line@, ctx.line_number) == Err::<
                Seq<((u8, u8), (u8, u8))>,
                _,
            >(e@),
        },
{
    let line = ctx.line;
    let n = ctx.line_number;
    if line.len() == 0 {
        let v: Vec<EscalatorLocation> = Vec::new();
        proof {
            assert(esc_views(v@) =~= Seq::<((u8, u8), (u8, u8))>::empty());
        }
        return Ok(v);
    }
    if !(line.len() >= 2 && line[0] == 'E' && line[1] == ':') {
        return Err(
            InvalidEscalator {
                line_number: n,
                line: string_from_chars(line),
                msg: "Invalid prefix",
            },
        );
    }
    let rest = vec_char_range(line, 2, line.len());
    let hunks = split_commas(&rest);
    let ghost hv = spec_split_commas(line@.subrange(2, line@.len() as int));
    let mut v: Vec<EscalatorLocation> = Vec::new();
    let mut idx: usize = 0;
    proof {
        assert(esc_views(v@) + Seq::<((u8, u8), (u8, u8))>::empty() =~= esc_views(v@));
        assert(spec_hunks_combine(esc_views(v@), spec_parse_hunks(hv, 0)) == spec_parse_hunks(
            hv,
            0,
        )) by {
            match spec_parse_hunks(hv, 0) {
                Err(m) => {},
                Ok(rr) => {
                    assert(esc_views(v@) + rr =~= rr);
                },
            }
        }
    }
    while idx < hunks.len()
        invariant
            line == ctx.line,
            n == ctx.line_number,
            line@.len() >= 2 && line@[0] == 'E' && line@[1] == ':',
            hv == spec_split_commas(line@.subrange(2, line@.len() as int)),
            hv == line_views(hunks@),
            idx <= hunks@.len(),
            idx <= 4,
            v@.len() == idx,
            forall|i: int| 0 <= i < v@.len() ==> (#[trigger] v@[i]).wf(),
            spec_parse_hunks(hv, 0) == spec_hunks_combine(
                esc_views(v@),
                spec_parse_hunks(hv, idx as int),
            ),
        decreases hunks@.len() - idx,
    {
        let h = &hunks[idx];
        proof {
            assert(hv[idx as int] == hunks@[idx as int]@);
        }
        match parse_hunk(h) {
            Err(m) => {
                proof {
                    assert(spec_parse_hunks(hv, idx as int) == Err::<
                        Seq<((u8, u8), (u8, u8))>,
                        Seq<char>,
                    >(m@));
                    assert(spec_parse_hunks(hv, 0) == Err::<Seq<((u8, u8), (u8, u8))>, Seq<char>>(
                        m@,
                    ));
                    assert(spec_parse_elevator_line(line@, n) == Err::<
                        Seq<((u8, u8), (u8, u8))>,
                        InvalidEscalatorView,
                    >(InvalidEscalatorView { line_number: n, line: line@, msg: m@ }));
                }
                let e = InvalidEscalator {
                    line_number: n,
                    line: string_from_chars(line),
                    msg: m,
                };
                proof {
                    assert(e@ =~= (InvalidEscalatorView { line_number: n, line: line@, msg: m@ }));
                }
                return Err(e);
            },
            Ok(e) => {
                if idx >= 4 {
                    proof {
                        assert(spec_parse_hunks(hv, idx as int) == Err::<
                            Seq<((u8, u8), (u8, u8))>,
                            Seq<char>,
                        >("Exceeded max escalators"@));
                        assert(spec_parse_hunks(hv, 0) == Err::<
                            Seq<((u8, u8), (u8, u8))>,
                            Seq<char>,
                        >("Exceeded max escalators"@));
                    }
                    return Err(
                        InvalidEscalator {
                            line_number: n,
                            line: string_from_chars(line),
                            msg: "Exceeded max escalators",
                        },
                    );
                }
                let ghost v_old = v@;
                v.push(e);
                proof {
                    let rest_new = spec_parse_hunks(hv, idx as int + 1);
                    assert(spec_hunks_combine(esc_views(v_old), spec_parse_hunks(hv, idx as int))
                        == spec_hunks_combine(esc_views(v@), rest_new)) by {
                        match rest_new {
                            Err(m) => {},
                            Ok(rr) => {
                                assert(esc_views(v_old) + (seq![e@] + rr) =~= esc_views(v@) + rr);
                            },
                        }
                    }
                }
                idx += 1;
            },
        }
    }
    proof {
        assert(esc_views(v@) + Seq::<((u8, u8), (u8, u8))>::empty() =~= esc_views(v@));
    }
    Ok(v)
}

/// Lines that may be skipped outside a tile's body: blank lines and `#`
/// comments.
pub open spec fn spec_skip_line(l: Seq<char>) -> bool {
    l.len() == 0 || l[0] == '#'
}

/// Whether `line` is blank or a `#` comment.
pub fn skip_tile_line(line: &Vec<char>) -> (r: bool)
    ensures
        r == spec_skip_line(line@),
{
    line.len() == 0 || line[0] == '#'
}

/// The first index at or after `i` whose line is not skippable, or the end
/// of the input.
pub open spec fn spec_skip_from(lines: Seq<Seq<char>>, i: int) -> int
    decreases lines.len() - i,
{
    if i < 0 || i >= lines.len() {
        i
    } else if spec_skip_line(lines[i]) {
        spec_skip_from(lines, i + 1)
    } else {
        i
    }
}

/// The nine rows of a tile's body from row `row` on, read from consecutive
/// lines starting at `j`: wall rows at even positions, cell rows at odd
/// ones. On success, the horizontal walls, vertical walls and cells
/// gathered from row `row` on.
pub open spec fn spec_parse_rows(lines: Seq<Seq<char>>, j: int, row: int) -> Result<
    (Seq<WallState>, Seq<WallState>, Seq<TileCell>),
    TileParsingErrorView,
>
    decreases 9 - row,
{
    if row < 0 || row >= 9 {
        Ok((Seq::empty(), Seq::empty(), Seq::empty()))
    } else if j + row >= lines.len() || j < 0 {
        Err(TileParsingErrorView::IncompleteTile { line_number: lines.len() as u32 })
    } else {
        let rt = if row % 2 == 0 {
            RowType::Wall
        } else {
            RowType::Cell
        };
        match spec_parse_row(rt, lines[j + row], ((j + row + 1) as u32)) {
            Err(e) => Err(e),
            Ok((ws, cs)) => match spec_parse_rows(lines, j, row + 1) {
                Err(e) => Err(e),
                Ok((h, v, c)) => if row % 2 == 0 {
                    Ok((ws + h, v, c))
                } else {
                    Ok((h, ws + v, cs + c))
                },
            },
        }
    }
}

/// Gathered rows so far combined with the outcome for the rest of a body.
pub open spec fn spec_rows_combine(
    h: Seq<WallState>,
    v: Seq<WallState>,
    c: Seq<TileCell>,
    rest: Result<(Seq<WallState>, Seq<WallState>, Seq<TileCell>), TileParsingErrorView>,
) -> Result<(Seq<WallState>, Seq<WallState>, Seq<TileCell>), TileParsingErrorView> {
    match rest {
        Err(e) => Err(e),
        Ok((h2, v2, c2)) => Ok((h + h2, v + v2, c + c2)),
    }
}

/// One whole tile read from `lines` starting at index `i`: skippable lines,
/// then the nine body rows on consecutive lines, then one optional
/// escalator line. On success, the tile and the index of the first line
/// after it.
pub open spec fn spec_parse_tile_at(lines: Seq<Seq<char>>, i: int) -> Result<
    (TileView, int),
    TileParsingErrorView,
> {
    if i >= lines.len() {
        Err(TileParsingErrorView::IncompleteTile { line_number: 0 })
    } else {
        let j = spec_skip_from(lines, i);
        match spec_parse_rows(lines, j, 0) {
            Err(e) => Err(e),
            Ok((h, v, c)) => if j + 9 >= lines.len() {
                Ok(
                    (
                        TileView { cells: c, horz: h, vert: v, escalators: Seq::empty() },
                        lines.len() as int,
                    ),
                )
            } else {
                match spec_parse_elevator_line(lines[j + 9], ((j + 10) as u32)) {
                    Ok(escs) => Ok(
                        (TileView { cells: c, horz: h, vert: v, escalators: escs }, j + 10),
                    ),
                    Err(ev) => Err(TileParsingErrorView::InvalidEscalator(ev)),
                }
            },
        }
    }
}

/// Reads one tile from `lines` starting at index `start`; on success also
/// returns the index of the first line after the tile.
pub fn tile_from_lines(lines: &Vec<Vec<char>>, start: usize) -> (r: Result<
    (Tile, usize),
    TileParsingError,
>)
    ensures
        match r {
            Ok((tile, next)) => {
                &&& spec_parse_tile_at(line_views(lines@), start as int) == Ok::<
                    _,
                    TileParsingErrorView,
                >((tile@, next as int))
                &&& tile.wf()
                &&& start < next <= lines@.len()
            },
            Err(e) => spec_parse_tile_at(line_views(lines@), start as int) == Err::<
                (TileView, int),
                _,
            >(e@),
        },
{
    let ghost ll = line_views(lines@);
    let len = lines.len();
    if start >= len {
        return Err(TileParsingError::IncompleteTile { line_number: 0 });
    }
    let mut j: usize = start;
    while j < len && skip_tile_line(&lines[j])
        invariant
            ll == line_views(lines@),
            len == lines@.len(),
            start <= j <= len,
            spec_skip_from(ll, start as int) == spec_skip_from(ll, j as int),
        decreases len - j,
    {
        proof {
            assert(ll[j as int] == lines@[j as int]@);
        }
        j += 1;
    }
    proof {
        if j < len {
            assert(ll[j as int] == lines@[j as int]@);
        }
        assert(spec_skip_from(ll, j as int) == j as int);
    }
    let ghost jj = j as int;
    let mut horz: Vec<WallState> = Vec::new();
    let mut vert: Vec<WallState> = Vec::new();
    let mut cells: Vec<TileCell> = Vec::new();
    let mut row: usize = 0;
    proof {
        assert(spec_rows_combine(horz@, vert@, cells@, spec_parse_rows(ll, jj, 0))
            == spec_parse_rows(ll, jj, 0)) by {
            match spec_parse_rows(ll, jj, 0) {
                Err(e) => {},
                Ok((h2, v2, c2)) => {
                    assert(horz@ + h2 =~= h2);
                    assert(vert@ + v2 =~= v2);
                    assert(cells@ + c2 =~= c2);
                },
            }
        }
    }
    while row < 9
        invariant
            ll == line_views(lines@),
            len == lines@.len(),
            start < len,
            start <= j <= len,
            jj == j as int,
            spec_skip_from(ll, start as int) == jj,
            row <= 9,
            spec_parse_rows(ll, jj, 0) == spec_rows_combine(
                horz@,
                vert@,
                cells@,
                spec_parse_rows(ll, jj, row as int),
            ),
            horz@.len() == 4 * ((row + 1) / 2),
            vert@.len() == 5 * (row / 2),
            cells@.len() == 4 * (row / 2),
        decreases 9 - row,
    {
        if row >= len - j {
            return Err(
                TileParsingError::IncompleteTile {
                    line_number: #[verifier::truncate] (len as u32),
                },
            );
        }
        let idx = j + row;
        let n: u32 = #[verifier::truncate] ((idx + 1) as u32);
        let rt = if row % 2 == 0 {
            RowType::Wall
        } else {
            RowType::Cell
        };
        proof {
            assert(ll[idx as int] == lines@[idx as int]@);
        }
        let ghost h_old = horz@;
        let ghost v_old = vert@;
        let ghost c_old = cells@;
        match parse_row(rt, &lines[idx], n) {
            Err(e) => {
                return Err(e);
            },
            Ok((ws, cs)) => {
                let mut ws = ws;
                let mut cs = cs;
                if row % 2 == 0 {
                    horz.append(&mut ws);
                } else {
                    vert.append(&mut ws);
                    cells.append(&mut cs);
                }
            },
        }
        proof {
            let rest_new = spec_parse_rows(ll, jj, row as int + 1);
            assert(spec_rows_combine(h_old, v_old, c_old, spec_parse_rows(ll, jj, row as int))
                == spec_rows_combine(horz@, vert@, cells@, rest_new)) by {
                match rest_new {
                    Err(e) => {},
                    Ok((h2, v2, c2)) => {
                        match spec_parse_row(
                            if row % 2 == 0 {
                                RowType::Wall
                            } else {
                                RowType::Cell
                            },
                            ll[jj + row],
                            ((jj + row + 1) as u32),
                        ) {
                            Err(e) => {},
                            Ok((ws2, cs2)) => {
                                if row % 2 == 0 {
                                    assert(h_old + (ws2 + h2) =~= horz@ + h2);
                                } else {
                                    assert(v_old + (ws2 + v2) =~= vert@ + v2);
                                    assert(c_old + (cs2 + c2) =~= cells@ + c2);
                                }
                            },
                        }
                    },
                }
            }
        }
        row += 1;
    }
    proof {
        assert(horz@ + Seq::<WallState>::empty() =~= horz@);
        assert(vert@ + Seq::<WallState>::empty() =~= vert@);
        assert(cells@ + Seq::<TileCell>::empty() =~= cells@);
        assert(spec_parse_rows(ll, jj, 0) == Ok::<_, TileParsingErrorView>(
            (horz@, vert@, cells@),
        ));
    }
    let no_elevator_line = len - j <= 9;
    let mut escalators: Vec<EscalatorLocation> = Vec::new();
    let next: usize;
    if no_elevator_line {
        next = len;
    } else {
        let eidx = j + 9;
        let en: u32 = #[verifier::truncate] ((eidx + 1) as u32);
        proof {
            assert(ll[eidx as int] == lines@[eidx as int]@);
        }
        let ctx = ParseContext { line: &lines[eidx], line_number: en };
        match elevators_from_line(&ctx) {
            Err(ie) => {
                return Err(TileParsingError::InvalidEscalator(ie));
            },
            Ok(v) => {
                escalators = v;
                next = eidx + 1;
            },
        }
    }
    let ghost tv_escs = esc_views(escalators@);
    proof {
        if no_elevator_line {
            assert(tv_escs =~= Seq::<((u8, u8), (u8, u8))>::empty());
        }
    }
    match Tile::from_parts(cells, horz, vert, escalators) {
        Some(t) => {
            proof {
                assert(t@ =~= (match spec_parse_tile_at(ll, start as int) {
                    Ok((tv, _)) => tv,
                    Err(_) => t@,
                }));
            }
            Ok((t, next))
        },
        None => {
            proof {
                assert(false);
            }
            Err(TileParsingError::NoMoreTiles)
        },
    }
}

/// The name-and-view pairs of a parsed tileset.
pub open spec fn tileset_views(v: Seq<(String, Tile)>) -> Seq<(Seq<char>, TileView)> {
    Seq::new(v.len(), |i: int| (v[i].0@, v[i].1@))
}

/// A whole tileset from index `i` on: each entry is an `@`-led ASCII name
/// line followed by a tile.
pub open spec fn spec_parse_tileset_at(lines: Seq<Seq<char>>, i: int) -> Result<
    Seq<(Seq<char>, TileView)>,
    TileParsingErrorView,
>
    decreases lines.len() - i,
{
    if i >= lines.len() {
        Ok(Seq::empty())
    } else if spec_skip_line(lines[i]) {
        spec_parse_tileset_at(lines, i + 1)
    } else if lines[i][0] != '@' {
        Err(
            TileParsingErrorView::InvalidNameLeader {
                line_number: ((i + 1) as u32),
                line: lines[i],
            },
        )
    } else if !(forall|k: int| 1 <= k < lines[i].len() ==> (#[trigger] lines[i][k] as u32) < 128) {
        Err(
            TileParsingErrorView::InvalidTileName {
                line_number: ((i + 1) as u32),
                name: lines[i].subrange(1, lines[i].len() as int),
            },
        )
    } else {
        match spec_parse_tile_at(lines, i + 1) {
            Err(e) => Err(e),
            Ok((tv, next)) => {
                let nn = if next >= i + 2 {
                    next
                } else {
                    i + 2
                };
                match spec_parse_tileset_at(lines, nn) {
                    Err(e) => Err(e),
                    Ok(rest) => Ok(
                        seq![(lines[i].subrange(1, lines[i].len() as int), tv)] + rest,
                    ),
                }
            },
        }
    }
}

/// Gathered entries so far combined with the outcome for the rest.
pub open spec fn spec_tileset_combine(
    acc: Seq<(Seq<char>, TileView)>,
    rest: Result<Seq<(Seq<char>, TileView)>, TileParsingErrorView>,
) -> Result<Seq<(Seq<char>, TileView)>, TileParsingErrorView> {
    match rest {
        Err(e) => Err(e),
        Ok(r) => Ok(acc + r),
    }
}

fn tileset_from_lines(lines: &Vec<Vec<char>>) -> (r: Result<
    Vec<(String, Tile)>,
    TileParsingError,
>)
    ensures
        match r {
            Ok(v) => {
                &&& spec_parse_tileset_at(line_views(lines@), 0) == Ok::<_, TileParsingErrorView>(
                    tileset_views(v@),
                )
                &&& forall|i: int| 0 <= i < v@.len() ==> (#[trigger] v@[i]).1.wf()
            },
            Err(e) => spec_parse_tileset_at(line_views(lines@), 0) == Err::<
                Seq<(Seq<char>, TileView)>,
                _,
            >(e@),
        },
{
    let ghost ll = line_views(lines@);
    let mut acc: Vec<(String, Tile)> = Vec::new();
    let mut i: usize = 0;
    proof {
        assert(spec_tileset_combine(tileset_views(acc@), spec_parse_tileset_at(ll, 0))
            == spec_parse_tileset_at(ll, 0)) by {
            match spec_parse_tileset_at(ll, 0) {
                Err(e) => {},
                Ok(rest) => {
                    assert(tileset_views(acc@) + rest =~= rest);
                },
            }
        }
    }
    while i < lines.len()
        invariant
            ll == line_views(lines@),
            i <= lines@.len(),
            forall|k: int| 0 <= k < acc@.len() ==> (#[trigger] acc@[k]).1.wf(),
            spec_parse_tileset_at(ll, 0) == spec_tileset_combine(
                tileset_views(acc@),
                spec_parse_tileset_at(ll, i as int),
            ),
        decreases lines@.len() - i,
    {
        let line = &lines[i];
        proof {
            assert(ll[i as int] == lines@[i as int]@);
        }
        if skip_tile_line(line) {
            i += 1;
            continue ;
        }
        if line[0] != '@' {
            return Err(
                TileParsingError::InvalidNameLeader {
                    line_number: #[verifier::truncate] ((i + 1) as u32),
                    line: string_from_chars(line),
                },
            );
        }
        let tail = vec_char_range(line, 1, line.len());
        let mut all_ascii = true;
        let mut k: usize = 0;
        while k < tail.len()
            invariant
                k <= tail@.len(),
                all_ascii == (forall|q: int| 0 <= q < k ==> (#[trigger] tail@[q] as u32) < 128),
            decreases tail@.len() - k,
        {
            if tail[k] as u32 >= 128 {
                all_ascii = false;
            }
            k += 1;
        }
        proof {
            assert(all_ascii == (forall|q: int|
                1 <= q < ll[i as int].len() ==> (#[trigger] ll[i as int][q] as u32) < 128)) by {
                if all_ascii {
                    assert forall|q: int|
                        1 <= q < ll[i as int].len() implies (#[trigger] ll[i as int][q] as u32)
                        < 128 by {
                        assert(tail@[q - 1] == ll[i as int][q]);
                    }
                } else {
                    let q = choose|q: int|
                        0 <= q < tail@.len() && !((#[trigger] tail@[q] as u32) < 128);
                    assert(ll[i as int][q + 1] == tail@[q]);
                }
            }
        }
        if !all_ascii {
            return Err(
                TileParsingError::InvalidTileName {
                    line_number: #[verifier::truncate] ((i + 1) as u32),
                    name: string_from_chars(&tail),
                },
            );
        }
        match tile_from_lines(lines, i + 1) {
            Err(e) => {
                return Err(e);
            },
            Ok((tile, next)) => {
                let name = string_from_chars(&tail);
                let ghost acc_old = acc@;
                let ghost iv = i as int;
                acc.push((name, tile));
                proof {
                    let tile_res = spec_parse_tile_at(ll, iv + 1);
                    assert(tile_res == Ok::<_, TileParsingErrorView>((tile@, next as int)));
                    assert(next as int >= iv + 2);
                    assert(tileset_views(acc@) =~= tileset_views(acc_old).push(
                        (tail@, tile@),
                    ));
                    assert(spec_tileset_combine(tileset_views(acc_old), spec_parse_tileset_at(
                        ll,
                        iv,
                    )) == spec_tileset_combine(tileset_views(acc@), spec_parse_tileset_at(
                        ll,
                        next as int,
                    ))) by {
                        match spec_parse_tileset_at(ll, next as int) {
                            Err(e) => {},
                            Ok(rest) => {
                                assert(tileset_views(acc_old) + (seq![(tail@, tile@)] + rest)
                                    =~= tileset_views(acc@) + rest);
                            },
                        }
                    }
                }
                i = next;
            },
        }
    }
    proof {
        assert(spec_parse_tileset_at(ll, i as int) == Ok::<_, TileParsingErrorView>(
            Seq::<(Seq<char>, TileView)>::empty(),
        ));
        assert(tileset_views(acc@) + Seq::<(Seq<char>, TileView)>::empty() =~= tileset_views(
            acc@,
        ));
    }
    Ok(acc)
}

/// A whole tileset file: the parse of its lines from the top.
pub open spec fn spec_tileset_from_str(s: Seq<char>) -> Result<
    Seq<(Seq<char>, TileView)>,
    TileParsingErrorView,
> {
    spec_parse_tileset_at(spec_lines(s), 0)
}

/// Parses a tileset file: a sequence of `@name` headers each followed by a
/// tile. Empty input yields an empty tileset.
pub fn tileset_from_str(s: &str) -> (r: Result<Vec<(String, Tile)>, TileParsingError>)
    ensures
        match r {
            Ok(v) => {
                &&& spec_tileset_from_str(s@) == Ok::<_, TileParsingErrorView>(tileset_views(v@))
                &&& forall|i: int| 0 <= i < v@.len() ==> (#[trigger] v@[i]).1.wf()
            },
            Err(e) => spec_tileset_from_str(s@) == Err::<Seq<(Seq<char>, TileView)>, _>(e@),
        },
{
    let chars = chars_of(s);
    let lines = split_lines(&chars);
    tileset_from_lines(&lines)
}

/// A single tile: the parse of the input's lines from the top, with the
/// consumed-line count dropped.
pub open spec fn spec_tile_from_str(s: Seq<char>) -> Result<TileView, TileParsingErrorView> {
    match spec_parse_tile_at(spec_lines(s), 0) {
        Ok((tv, _)) => Ok(tv),
        Err(e) => Err(e),
    }
}

/// Parses a single tile, preceded by optional blank or `#` lines and
/// followed by an optional escalator line.
pub fn tile_from_str(s: &str) -> (r: Result<Tile, TileParsingError>)
    ensures
        match r {
            Ok(t) => spec_tile_from_str(s@) == Ok::<_, TileParsingErrorView>(t@) && t.wf(),
            Err(e) => spec_tile_from_str(s@) == Err::<TileView, _>(e@),
        },
{
    let chars = chars_of(s);
    let lines = split_lines(&chars);
    match tile_from_lines(&lines, 0) {
        Ok((t, _next)) => Ok(t),
        Err(e) => Err(e),
    }
}

impl core::str::FromStr for Tile {
    type Err = TileParsingError;

    fn from_str(s: &str) -> Result<Tile, TileParsingError> {
        tile_from_str(s)
    }
}

} // verus!
