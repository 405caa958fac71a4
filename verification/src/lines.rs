use vstd::prelude::*;

verus! {

/// Relies on `String::push`: appends one character to the string.
pub assume_specification[ String::push ](s: &mut String, ch: char)
    ensures
        final(s)@ == old(s)@.push(ch),
;

/// The characters of `s`, one by one.
pub fn chars_of(s: &str) -> (v: Vec<char>)
    ensures
        v@ == s@,
{
    let n = s.unicode_len();
    let mut v: Vec<char> = Vec::new();
    let mut i: usize = 0;
    while i < n
        invariant
            n == s@.len(),
            i <= n,
            v@ =~= s@.subrange(0, i as int),
        decreases n - i,
    {
        v.push(s.get_char(i));
        i += 1;
    }
    proof {
        assert(s@.subrange(0, s@.len() as int) =~= s@);
    }
    v
}

/// A `String` holding exactly the characters of `v`.
pub fn string_from_chars(v: &Vec<char>) -> (r: String)
    ensures
        r@ == v@,
{
    let mut r = String::new();
    let mut i: usize = 0;
    while i < v.len()
        invariant
            i <= v@.len(),
            r@ =~= v@.subrange(0, i as int),
        decreases v@.len() - i,
    {
        r.push(v[i]);
        i += 1;
    }
    proof {
        assert(v@.subrange(0, v@.len() as int) =~= v@);
    }
    r
}

/// The slice of `v` between `from` and `to`, as its own vector.
pub fn vec_char_range(v: &Vec<char>, from: usize, to: usize) -> (r: Vec<char>)
    requires
        from <= to <= v@.len(),
    ensures
        r@ == v@.subrange(from as int, to as int),
{
    let mut r: Vec<char> = Vec::new();
    let mut i: usize = from;
    while i < to
        invariant
            from <= i <= to <= v@.len(),
            r@ =~= v@.subrange(from as int, i as int),
        decreases to - i,
    {
        r.push(v[i]);
        i += 1;
    }
    r
}

/// The views of a sequence of character vectors.
pub open spec fn line_views(ls: Seq<Vec<char>>) -> Seq<Seq<char>> {
    Seq::new(ls.len(), |i: int| ls[i]@)
}

/// Index of the first newline in `s`, or `s.len()` when there is none.
pub open spec fn spec_first_nl(s: Seq<char>) -> int
    decreases s.len(),
{
    if s.len() == 0 {
        0
    } else if s[0] == '\n' {
        0
    } else {
        1 + spec_first_nl(s.drop_first())
    }
}

proof fn lemma_first_nl(s: Seq<char>, i: int)
    requires
        0 <= i <= s.len(),
        forall|k: int| 0 <= k < i ==> s[k] != '\n',
        i < s.len() ==> s[i] == '\n',
    ensures
        spec_first_nl(s) == i,
    decreases s.len(),
{
    if s.len() == 0 {
    } else if s[0] == '\n' {
        assert(i == 0);
    } else {
        let d = s.drop_first();
        assert forall|k: int| 0 <= k < i - 1 implies d[k] != '\n' by {
            assert(s[k + 1] != '\n');
        }
        lemma_first_nl(d, i - 1);
    }
}

/// A line with any single trailing carriage return removed: the handling of
/// a Windows line ending once the newline itself is gone.
pub open spec fn spec_strip_cr(l: Seq<char>) -> Seq<char> {
    if l.len() > 0 && l.last() == '\r' {
        l.drop_last()
    } else {
        l
    }
}

/// The lines of `s`: split at each newline, with a carriage return directly
/// before a newline removed; a final line ending opens no extra empty line.
pub open spec fn spec_lines(s: Seq<char>) -> Seq<Seq<char>>
    decreases s.len(),
{
    if s.len() == 0 {
        Seq::empty()
    } else {
        let i = spec_first_nl(s);
        if 0 <= i < s.len() {
            seq![spec_strip_cr(s.subrange(0, i))] + spec_lines(s.subrange(i + 1, s.len() as int))
        } else {
            seq![s]
        }
    }
}

/// Splits `v` into its lines.
pub fn split_lines(v: &Vec<char>) -> (r: Vec<Vec<char>>)
    ensures
        line_views(r@) == spec_lines(v@),
{
    let n = v.len();
    let mut r: Vec<Vec<char>> = Vec::new();
    let mut start: usize = 0;
    let mut i: usize = 0;
    proof {
        assert(v@.subrange(0, n as int) =~= v@);
        assert(line_views(r@) + spec_lines(v@) =~= spec_lines(v@));
    }
    while i < n
        invariant
            n == v@.len(),
            start <= i <= n,
            forall|k: int| start <= k < i ==> v@[k] != '\n',
            spec_lines(v@) =~= line_views(r@) + spec_lines(v@.subrange(start as int, n as int)),
        decreases n - i,
    {
        if v[i] == '\n' {
            let ghost rest = v@.subrange(start as int, n as int);
            let line_end: usize = if i > start && v[i - 1] == '\r' {
                i - 1
            } else {
                i
            };
            let line = vec_char_range(v, start, line_end);
            proof {
                assert forall|k: int| 0 <= k < i - start implies rest[k] != '\n' by {
                    assert(v@[start + k] != '\n');
                }
                assert(rest[i - start] == '\n');
                lemma_first_nl(rest, i - start);
                assert(rest.subrange(0, i - start as int) =~= v@.subrange(
                    start as int,
                    i as int,
                ));
                assert(line@ =~= spec_strip_cr(v@.subrange(start as int, i as int)));
                assert(rest.subrange(i - start + 1, rest.len() as int) =~= v@.subrange(
                    i + 1,
                    n as int,
                ));
            }
            let ghost r_old = r@;
            r.push(line);
            proof {
                assert(line_views(r@) =~= line_views(r_old).push(line@));
                assert(line_views(r_old) + spec_lines(rest) =~= line_views(r@) + spec_lines(
                    v@.subrange(i + 1, n as int),
                ));
            }
            start = i + 1;
        }
        i += 1;
    }
    if start < n {
        let ghost rest = v@.subrange(start as int, n as int);
        proof {
            assert forall|k: int| 0 <= k < rest.len() implies rest[k] != '\n' by {
                assert(v@[start + k] != '\n');
            }
            lemma_first_nl(rest, rest.len() as int);
        }
        let line = vec_char_range(v, start, n);
        let ghost r_old = r@;
        r.push(line);
        proof {
            assert(line_views(r@) =~= line_views(r_old).push(line@));
            assert(line_views(r_old) + spec_lines(rest) =~= line_views(r@) + spec_lines(
                Seq::<char>::empty(),
            ));
            assert(spec_lines(rest) =~= seq![rest]);
            assert(line_views(r@) + spec_lines(Seq::<char>::empty()) =~= line_views(r@));
        }
    } else {
        proof {
            assert(v@.subrange(start as int, n as int) =~= Seq::<char>::empty());
        }
    }
    proof {
        assert(line_views(r@) + spec_lines(Seq::<char>::empty()) =~= line_views(r@));
        assert(line_views(r@) =~= spec_lines(v@));
    }
    r
}

} // verus!
