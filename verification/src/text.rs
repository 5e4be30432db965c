//! Verified text tidying: trimming whitespace, splitting into lines and
//! joining them back — the cleanup applied to extracted recipe text.

use vstd::prelude::*;
use vstd::string::StrSliceExecFns;

verus! {

/// Relies on `String`'s `FromIterator<char>` impl: collecting characters
/// yields the string of exactly those characters, in order.
#[verifier::external_body]
pub fn chars_to_string(v: &Vec<char>) -> (s: String)
    ensures
        s@ == v@,
{
    v.iter().collect()
}

/// The Unicode whitespace characters (the `White_Space` property).
pub open spec fn spec_is_ws(c: char) -> bool {
    ||| c == '\u{9}'
    ||| c == '\u{A}'
    ||| c == '\u{B}'
    ||| c == '\u{C}'
    ||| c == '\u{D}'
    ||| c == ' '
    ||| c == '\u{85}'
    ||| c == '\u{A0}'
    ||| c == '\u{1680}'
    ||| ('\u{2000}' <= c && c <= '\u{200A}')
    ||| c == '\u{2028}'
    ||| c == '\u{2029}'
    ||| c == '\u{202F}'
    ||| c == '\u{205F}'
    ||| c == '\u{3000}'
}

/// Whether the character is Unicode whitespace.
pub fn is_ws(c: char) -> (b: bool)
    ensures
        b == spec_is_ws(c),
{
    c == '\u{9}' || c == '\u{A}' || c == '\u{B}' || c == '\u{C}' || c == '\u{D}' || c == ' ' || c
        == '\u{85}' || c == '\u{A0}' || c == '\u{1680}' || ('\u{2000}' <= c && c <= '\u{200A}')
        || c == '\u{2028}' || c == '\u{2029}' || c == '\u{202F}' || c == '\u{205F}' || c
        == '\u{3000}'
}

/// The sequence without its leading whitespace.
pub open spec fn spec_trim_front(s: Seq<char>) -> Seq<char>
    decreases s.len(),
{
    if s.len() > 0 && spec_is_ws(s[0]) {
        spec_trim_front(s.drop_first())
    } else {
        s
    }
}

/// The sequence without its trailing whitespace.
pub open spec fn spec_trim_back(s: Seq<char>) -> Seq<char>
    decreases s.len(),
{
    if s.len() > 0 && spec_is_ws(s.last()) {
        spec_trim_back(s.drop_last())
    } else {
        s
    }
}

/// The sequence without leading and trailing whitespace.
pub open spec fn spec_trim(s: Seq<char>) -> Seq<char> {
    spec_trim_back(spec_trim_front(s))
}

/// Index of the first newline, or the length when there is none.
pub open spec fn spec_find_nl(s: Seq<char>) -> int
    decreases s.len(),
{
    if s.len() == 0 {
        0
    } else if s[0] == '\n' {
        0
    } else {
        1 + spec_find_nl(s.drop_first())
    }
}

/// The first-newline index lies in the sequence (or just past it), marks
/// a newline when inside, and nothing before it is one.
pub proof fn lemma_find_nl(s: Seq<char>)
    ensures
        0 <= spec_find_nl(s) <= s.len(),
        spec_find_nl(s) < s.len() ==> s[spec_find_nl(s)] == '\n',
        forall|k: int| 0 <= k < spec_find_nl(s) ==> s[k] != '\n',
    decreases s.len(),
{
    if s.len() > 0 && s[0] != '\n' {
        lemma_find_nl(s.drop_first());
        assert forall|k: int| 1 <= k < spec_find_nl(s) implies s[k] != '\n' by {
            assert(s.drop_first()[k - 1] != '\n');
        }
    }
}

/// The segments between newlines, in order; the separators are not kept.
pub open spec fn spec_split_lines(s: Seq<char>) -> Seq<Seq<char>>
    decreases s.len(),
{
    let i = spec_find_nl(s);
    if 0 <= i && i < s.len() {
        seq![s.take(i)] + spec_split_lines(s.skip(i + 1))
    } else {
        seq![s]
    }
}

/// The lines joined back with single newlines.
pub open spec fn spec_join_nl(ls: Seq<Seq<char>>) -> Seq<char>
    decreases ls.len(),
{
    if ls.len() == 0 {
        Seq::empty()
    } else if ls.len() == 1 {
        ls[0]
    } else {
        ls[0] + seq!['\n'] + spec_join_nl(ls.drop_first())
    }
}

/// Joining after appending one more line appends a newline and the line.
pub proof fn lemma_join_nl_push(ls: Seq<Seq<char>>, x: Seq<char>)
    ensures
        spec_join_nl(ls.push(x)) == if ls.len() == 0 {
            x
        } else {
            spec_join_nl(ls) + seq!['\n'] + x
        },
    decreases ls.len(),
{
    if ls.len() == 0 {
        assert(ls.push(x).len() == 1);
        assert(ls.push(x)[0] == x);
    } else {
        lemma_join_nl_push(ls.drop_first(), x);
        assert(ls.push(x).drop_first() =~= ls.drop_first().push(x));
        assert(ls.push(x)[0] == ls[0]);
        if ls.len() == 1 {
            assert(ls.drop_first().len() == 0);
        }
    }
}

/// Each line trimmed, positionally.
pub open spec fn spec_trimmed_lines(ls: Seq<Seq<char>>) -> Seq<Seq<char>> {
    Seq::new(ls.len(), |i: int| spec_trim(ls[i]))
}

/// What tidying yields: the text trimmed, each of its lines trimmed, and
/// the lines joined with single newlines; whitespace-only text tidies to
/// the empty string.
pub open spec fn spec_tidy(s: Seq<char>) -> Seq<char> {
    let t = spec_trim(s);
    if t.len() == 0 {
        Seq::empty()
    } else {
        spec_join_nl(spec_trimmed_lines(spec_split_lines(t)))
    }
}

/// The characters of the text, in order.
pub fn chars_of(s: &str) -> (v: Vec<char>)
    ensures
        v@ == s@,
{
    let n = s.unicode_len();
    let mut v: Vec<char> = Vec::new();
    proof {
        assert(s@.take(0) =~= Seq::<char>::empty());
    }
    for i in 0..n
        invariant
            n == s@.len(),
            v@ == s@.take(i as int),
    {
        v.push(s.get_char(i));
        proof {
            assert(s@.take(i + 1) =~= s@.take(i as int).push(s@[i as int]));
        }
    }
    proof {
        assert(s@.take(n as int) =~= s@);
    }
    v
}

/// The bounds of the text once trimmed: `v[r.0 .. r.1]` is `v` without
/// its leading and trailing whitespace.
fn trim_bounds(v: &Vec<char>, from: usize, to: usize) -> (r: (usize, usize))
    requires
        from <= to <= v@.len(),
    ensures
        from <= r.0 <= r.1 <= to,
        v@.subrange(r.0 as int, r.1 as int) == spec_trim(v@.subrange(from as int, to as int)),
{
    let ghost s = v@.subrange(from as int, to as int);
    let mut a = from;
    while a < to && is_ws(v[a])
        invariant
            from <= a <= to <= v@.len(),
            spec_trim_front(s) == spec_trim_front(v@.subrange(a as int, to as int)),
        decreases to - a,
    {
        proof {
            let cur = v@.subrange(a as int, to as int);
            assert(cur[0] == v@[a as int]);
            assert(cur.drop_first() =~= v@.subrange(a + 1, to as int));
        }
        a += 1;
    }
    proof {
        let cur = v@.subrange(a as int, to as int);
        if a < to {
            assert(cur[0] == v@[a as int]);
        }
        assert(spec_trim_front(s) == cur);
    }
    let ghost w = v@.subrange(a as int, to as int);
    let mut b = to;
    while b > a && is_ws(v[b - 1])
        invariant
            a <= b <= to <= v@.len(),
            spec_trim_back(w) == spec_trim_back(v@.subrange(a as int, b as int)),
        decreases b,
    {
        proof {
            let cur = v@.subrange(a as int, b as int);
            assert(cur.last() == v@[b - 1]);
            assert(cur.drop_last() =~= v@.subrange(a as int, b - 1));
        }
        b -= 1;
    }
    proof {
        let cur = v@.subrange(a as int, b as int);
        if b > a {
            assert(cur.last() == v@[b - 1]);
        }
        assert(spec_trim_back(w) == cur);
    }
    (a, b)
}

/// Tidies extracted text the way the recipe pipeline serves it: trims
/// the whole text, trims every line, and joins the lines with single
/// newlines.
pub fn tidy_text(s: &str) -> (r: String)
    ensures
        r@ == spec_tidy(s@),
{
    let v = chars_of(s);
    let (start, end) = trim_bounds(&v, 0, v.len());
    proof {
        assert(v@.subrange(0, v@.len() as int) =~= v@);
    }
    let ghost t = spec_trim(s@);
    if start == end {
        proof {
            assert(t =~= Seq::<char>::empty());
        }
        let empty: Vec<char> = Vec::new();
        return chars_to_string(&empty);
    }
    let ghost lines = spec_split_lines(t);
    let mut out: Vec<char> = Vec::new();
    let mut pos = start;
    let ghost mut done: Seq<Seq<char>> = Seq::empty();
    let mut first = true;
    proof {
        assert(t.skip(0) =~= t);
        assert(done + spec_split_lines(t) =~= spec_split_lines(t));
    }
    loop
        invariant_except_break
            start <= pos <= end <= v@.len(),
            start < end,
            t == v@.subrange(start as int, end as int),
            lines == spec_split_lines(t),
            lines =~= done + spec_split_lines(t.skip(pos - start)),
            first <==> done.len() == 0,
            out@ == spec_join_nl(spec_trimmed_lines(done)),
        ensures
            out@ == spec_join_nl(spec_trimmed_lines(lines)),
        decreases end - pos,
    {
        let j = find_nl_to(&v, pos, end);
        let ghost rest = t.skip(pos - start);
        proof {
            lemma_find_nl(rest);
            assert(rest =~= v@.subrange(pos as int, end as int));
            assert(spec_find_nl(rest) == j - pos);
            assert(rest.take(j - pos) =~= v@.subrange(pos as int, j as int));
        }
        let (a, b) = trim_bounds(&v, pos, j);
        if !first {
            out.push('\n');
        }
        let mut k = a;
        let ghost out_before = out@;
        proof {
            assert(v@.subrange(a as int, a as int) =~= Seq::<char>::empty());
            assert(out@ =~= out_before + v@.subrange(a as int, a as int));
        }
        while k < b
            invariant
                a <= k <= b <= v@.len(),
                out@ == out_before + v@.subrange(a as int, k as int),
            decreases b - k,
        {
            out.push(v[k]);
            proof {
                assert(v@.subrange(a as int, k + 1) =~= v@.subrange(a as int, k as int).push(
                    v@[k as int],
                ));
            }
            k += 1;
        }
        proof {
            let seg = rest.take(j - pos);
            let segt = spec_trim(seg);
            assert(seg =~= v@.subrange(pos as int, j as int));
            assert(out@ == out_before + segt);
            lemma_join_nl_push(spec_trimmed_lines(done), segt);
            assert(spec_trimmed_lines(done.push(seg)) =~= spec_trimmed_lines(done).push(segt));
            if done.len() == 0 {
                assert(out@ =~= segt);
            } else {
                assert(out@ =~= spec_join_nl(spec_trimmed_lines(done)) + seq!['\n'] + segt);
            }
            done = done.push(seg);
        }
        if j < end {
            proof {
                assert(rest.skip(j - pos + 1) =~= t.skip(j + 1 - start));
                assert(spec_split_lines(rest) == seq![rest.take(j - pos)] + spec_split_lines(
                    rest.skip(j - pos + 1),
                ));
                assert(done + spec_split_lines(t.skip(j + 1 - start)) =~= lines);
            }
            pos = j + 1;
            first = false;
        } else {
            proof {
                assert(spec_find_nl(rest) == rest.len());
                assert(spec_split_lines(rest) =~= seq![rest]);
                assert(rest.take(j - pos) =~= rest);
                assert(done =~= lines);
            }
            break;
        }
    }
    proof {
        assert(out@ == spec_tidy(s@));
    }
    chars_to_string(&out)
}

/// Index of the first newline in `v[from..to]`, or `to` when none is
/// there: the newline search never leaves the trimmed region.
fn find_nl_to(v: &Vec<char>, from: usize, to: usize) -> (j: usize)
    requires
        from <= to <= v@.len(),
    ensures
        from <= j <= to,
        j - from == spec_find_nl(v@.subrange(from as int, to as int)),
        j < to ==> v@[j as int] == '\n',
{
    let ghost s = v@.subrange(from as int, to as int);
    proof {
        lemma_find_nl(s);
        assert(s.skip(0) =~= s);
    }
    let mut j = from;
    while j < to && v[j] != '\n'
        invariant
            from <= j <= to <= v@.len(),
            forall|k: int| from <= k < j ==> v@[k] != '\n',
        decreases to - j,
    {
        j += 1;
    }
    proof {
        let i = spec_find_nl(s);
        assert(forall|k: int| 0 <= k < s.len() ==> s[k] == v@[k + from]);
        if j < to {
            assert(s[j - from] == '\n');
            assert(i <= j - from);
            if i < j - from {
                assert(v@[i + from] == '\n');
                assert(false);
            }
        } else {
            if i < s.len() {
                assert(v@[i + from] == '\n');
                assert(false);
            }
        }
    }
    j
}

} // verus!
