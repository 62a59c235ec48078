//! Character-level helpers shared by the request decoder and the router.
use vstd::prelude::*;

verus! {

/// Unicode `White_Space`: the characters that split tokens and are trimmed.
pub open spec fn white(c: char) -> bool {
    let u = c as u32;
    ||| 9 <= u <= 13
    ||| u == 32
    ||| u == 0x85
    ||| u == 0xA0
    ||| u == 0x1680
    ||| 0x2000 <= u <= 0x200A
    ||| u == 0x2028
    ||| u == 0x2029
    ||| u == 0x202F
    ||| u == 0x205F
    ||| u == 0x3000
}

/// Whether `c` is whitespace in the sense of `white`.
pub fn is_white(c: char) -> (r: bool)
    ensures
        r == white(c),
{
    let u = c as u32;
    (9 <= u && u <= 13) || u == 32 || u == 0x85 || u == 0xA0 || u == 0x1680 || (0x2000 <= u
        && u <= 0x200A) || u == 0x2028 || u == 0x2029 || u == 0x202F || u == 0x205F || u == 0x3000
}

/// The text with its leading whitespace removed.
pub open spec fn trim_start(s: Seq<char>) -> Seq<char>
    decreases s.len(),
{
    if s.len() > 0 && white(s[0]) {
        trim_start(s.drop_first())
    } else {
        s
    }
}

/// The text with its trailing whitespace removed.
pub open spec fn trim_end(s: Seq<char>) -> Seq<char>
    decreases s.len(),
{
    if s.len() > 0 && white(s.last()) {
        trim_end(s.drop_last())
    } else {
        s
    }
}

/// The text with the whitespace on both sides removed.
pub open spec fn trimmed(s: Seq<char>) -> Seq<char> {
    trim_end(trim_start(s))
}

/// The characters of `s`, one by one.
pub fn chars_of(s: &str) -> (r: Vec<char>)
    ensures
        r@ == s@,
{
    let n = s.unicode_len();
    let mut out: Vec<char> = Vec::new();
    let mut i: usize = 0;
    while i < n
        invariant
            n == s@.len(),
            i <= n,
            out@ == s@.take(i as int),
        decreases n - i,
    {
        out.push(s.get_char(i));
        i = i + 1;
        assert(out@ =~= s@.take(i as int));
    }
    assert(out@ =~= s@);
    out
}

/// The text of `s` with surrounding whitespace removed.
pub fn trim(s: &str) -> (r: String)
    ensures
        r@ == trimmed(s@),
{
    let cs = chars_of(s);
    let n = cs.len();
    let mut lo: usize = 0;
    assert(s@.subrange(0, n as int) =~= s@);
    while lo < n && is_white(cs[lo])
        invariant
            n == s@.len(),
            cs@ == s@,
            lo <= n,
            trim_start(s@) == trim_start(s@.subrange(lo as int, n as int)),
        decreases n - lo,
    {
        assert(s@.subrange(lo as int, n as int).drop_first() =~= s@.subrange(lo + 1, n as int));
        lo = lo + 1;
    }
    assert(trim_start(s@) == s@.subrange(lo as int, n as int)) by {
        if lo == n {
            assert(s@.subrange(lo as int, n as int).len() == 0);
        }
    }
    let mut hi: usize = n;
    while hi > lo && is_white(cs[hi - 1])
        invariant
            n == s@.len(),
            cs@ == s@,
            lo <= hi <= n,
            trimmed(s@) == trim_end(s@.subrange(lo as int, hi as int)),
        decreases hi,
    {
        assert(s@.subrange(lo as int, hi as int).drop_last() =~= s@.subrange(lo as int, hi - 1));
        hi = hi - 1;
    }
    s.substring_char(lo, hi).to_owned()
}

/// The texts that a sequence of strings holds.
pub open spec fn views(v: Seq<String>) -> Seq<Seq<char>> {
    v.map_values(|x: String| x@)
}

/// The text cut at every line feed: one piece more than there are line feeds.
pub open spec fn pieces(t: Seq<char>) -> Seq<Seq<char>>
    decreases t.len(),
{
    if t.len() == 0 {
        seq![Seq::empty()]
    } else {
        let init = pieces(t.drop_last());
        if t.last() == '\n' {
            init.push(Seq::empty())
        } else {
            init.update(init.len() - 1, init.last().push(t.last()))
        }
    }
}

/// A line that ended in a line feed loses a carriage return before it.
pub open spec fn strip_cr(l: Seq<char>) -> Seq<char> {
    if l.len() > 0 && l.last() == '\r' {
        l.drop_last()
    } else {
        l
    }
}

/// The lines of a text: each terminated by `\n` or `\r\n`, the last
/// terminator optional, and no empty line after a final terminator.
pub open spec fn lines_of(t: Seq<char>) -> Seq<Seq<char>> {
    let p = pieces(t);
    let done = p.drop_last().map_values(|l: Seq<char>| strip_cr(l));
    if p.last().len() == 0 {
        done
    } else {
        done.push(p.last())
    }
}

/// The maximal runs of non-whitespace characters, in order.
pub open spec fn tokens(s: Seq<char>) -> Seq<Seq<char>>
    decreases s.len(),
{
    if s.len() == 0 {
        Seq::empty()
    } else {
        let init = tokens(s.drop_last());
        let c = s.last();
        if white(c) {
            init
        } else if s.len() >= 2 && !white(s[s.len() - 2]) {
            init.update(init.len() - 1, init.last().push(c))
        } else {
            init.push(seq![c])
        }
    }
}

/// Splits a text into its lines (see `lines_of`).
pub fn split_lines(text: &str) -> (r: Vec<String>)
    ensures
        views(r@) == lines_of(text@),
{
    let cs = chars_of(text);
    let n = cs.len();
    let ghost t = text@;
    let ghost raw: Seq<Seq<char>> = Seq::empty();
    let mut out: Vec<String> = Vec::new();
    let mut start: usize = 0;
    let mut i: usize = 0;
    assert(t.take(0) =~= Seq::<char>::empty());
    assert(raw.push(t.subrange(0, 0)) =~= seq![Seq::<char>::empty()]);
    while i < n
        invariant
            t == text@,
            cs@ == t,
            n == t.len(),
            start <= i <= n,
            pieces(t.take(i as int)) == raw.push(t.subrange(start as int, i as int)),
            views(out@) == raw.map_values(|l: Seq<char>| strip_cr(l)),
        decreases n - i,
    {
        assert(t.take(i + 1).drop_last() =~= t.take(i as int));
        assert(t.take(i + 1).last() == t[i as int]);
        if cs[i] == '\n' {
            let end = if i > start && cs[i - 1] == '\r' {
                i - 1
            } else {
                i
            };
            let line = text.substring_char(start, end).to_owned();
            let ghost before = out@;
            let ghost old_raw = raw;
            proof {
                let piece = t.subrange(start as int, i as int);
                assert(line@ =~= strip_cr(piece));
                raw = raw.push(piece);
                assert(raw.map_values(|l: Seq<char>| strip_cr(l)) =~= old_raw.map_values(
                    |l: Seq<char>| strip_cr(l),
                ).push(strip_cr(piece)));
            }
            out.push(line);
            assert(views(out@) =~= views(before).push(line@));
            start = i + 1;
            assert(views(out@) =~= raw.map_values(|l: Seq<char>| strip_cr(l)));
            assert(t.subrange(start as int, start as int) =~= Seq::<char>::empty());
            assert(pieces(t.take(i + 1)) =~= raw.push(t.subrange(start as int, i + 1)));
        } else {
            assert(t.subrange(start as int, i as int).push(t[i as int]) =~= t.subrange(
                start as int,
                i + 1,
            ));
            assert(pieces(t.take(i + 1)) =~= raw.push(t.subrange(start as int, i + 1)));
        }
        i = i + 1;
    }
    assert(t.take(n as int) =~= t);
    let ghost p = pieces(t);
    assert(p.drop_last() =~= raw);
    if start < n {
        let line = text.substring_char(start, n).to_owned();
        out.push(line);
        assert(views(out@) =~= lines_of(t));
    } else {
        assert(views(out@) =~= lines_of(t));
    }
    out
}

/// Splits a text into its whitespace-separated tokens (see `tokens`).
pub fn split_whitespace(text: &str) -> (r: Vec<String>)
    ensures
        views(r@) == tokens(text@),
{
    let cs = chars_of(text);
    let n = cs.len();
    let ghost t = text@;
    let ghost raw: Seq<Seq<char>> = Seq::empty();
    let mut out: Vec<String> = Vec::new();
    let mut start: usize = 0;
    let mut i: usize = 0;
    assert(t.take(0) =~= Seq::<char>::empty());
    while i < n
        invariant
            t == text@,
            cs@ == t,
            n == t.len(),
            start <= i <= n,
            views(out@) == raw,
            i > 0 && !white(t[i - 1]) ==> start < i && tokens(t.take(i as int)) == raw.push(
                t.subrange(start as int, i as int),
            ),
            !(i > 0 && !white(t[i - 1])) ==> tokens(t.take(i as int)) == raw,
        decreases n - i,
    {
        let ghost pre = t.take(i as int);
        assert(t.take(i + 1).drop_last() =~= pre);
        assert(t.take(i + 1).last() == t[i as int]);
        let in_word = i > 0 && !is_white(cs[i - 1]);
        if is_white(cs[i]) {
            if in_word {
                let word = text.substring_char(start, i).to_owned();
                proof {
                    raw = raw.push(t.subrange(start as int, i as int));
                }
                let ghost before = out@;
                out.push(word);
                assert(views(out@) =~= views(before).push(t.subrange(start as int, i as int)));
            }
        } else if in_word {
            assert(t.take(i + 1)[i - 1] == t[i - 1]);
            assert(t.subrange(start as int, i as int).push(t[i as int]) =~= t.subrange(
                start as int,
                i + 1,
            ));
            assert(tokens(t.take(i + 1)) =~= raw.push(t.subrange(start as int, i + 1)));
        } else {
            if i > 0 {
                assert(t.take(i + 1)[i - 1] == t[i - 1]);
            }
            start = i;
            assert(seq![t[i as int]] =~= t.subrange(start as int, i + 1));
        }
        i = i + 1;
    }
    assert(t.take(n as int) =~= t);
    if n > 0 && !is_white(cs[n - 1]) {
        let word = text.substring_char(start, n).to_owned();
        out.push(word);
        assert(views(out@) =~= tokens(t));
    }
    out
}

/// Whether `s` begins with `pat`, character for character.
pub fn starts_with(s: &str, pat: &str) -> (r: bool)
    ensures
        r == pat@.is_prefix_of(s@),
{
    let a = chars_of(s);
    let b = chars_of(pat);
    if b.len() > a.len() {
        return false;
    }
    let mut i: usize = 0;
    while i < b.len()
        invariant
            a@ == s@,
            b@ == pat@,
            b@.len() <= a@.len(),
            i <= b@.len(),
            forall|j: int| 0 <= j < i ==> s@[j] == pat@[j],
        decreases b@.len() - i,
    {
        if a[i] != b[i] {
            assert(s@.subrange(0, pat@.len() as int)[i as int] != pat@[i as int]);
            return false;
        }
        i = i + 1;
    }
    assert(pat@ =~= s@.subrange(0, pat@.len() as int));
    true
}

/// The text after the last `/`, or all of it when it holds none.
pub open spec fn after_last_slash(p: Seq<char>) -> Seq<char>
    decreases p.len(),
{
    if p.len() == 0 || p.last() == '/' {
        Seq::empty()
    } else {
        after_last_slash(p.drop_last()).push(p.last())
    }
}

/// The final `/`-separated component of a path (see `after_last_slash`).
pub fn last_component(path: &str) -> (r: String)
    ensures
        r@ == after_last_slash(path@),
{
    let cs = chars_of(path);
    let n = cs.len();
    let ghost p = path@;
    let mut i: usize = n;
    assert(p.take(n as int) =~= p);
    assert(p.subrange(n as int, n as int) =~= Seq::<char>::empty());
    while i > 0 && cs[i - 1] != '/'
        invariant
            cs@ == p,
            p == path@,
            n == p.len(),
            i <= n,
            after_last_slash(p) == after_last_slash(p.take(i as int)) + p.subrange(i as int, n as int),
        decreases i,
    {
        assert(p.take(i as int).drop_last() =~= p.take(i - 1));
        assert(p.subrange(i - 1, n as int) =~= seq![p[i - 1]] + p.subrange(i as int, n as int));
        assert(after_last_slash(p.take(i as int)) + p.subrange(i as int, n as int) =~= after_last_slash(
            p.take(i - 1),
        ) + p.subrange(i - 1, n as int));
        i = i - 1;
    }
    assert(after_last_slash(p.take(i as int)) =~= Seq::<char>::empty());
    assert(after_last_slash(p) =~= p.subrange(i as int, n as int));
    path.substring_char(i, n).to_owned()
}

} // verus!
