//! Text as sequences of characters.
//!
//! A shell configuration file is handled as a `Seq<char>`: the functions here
//! cut it into lines, look for a character or a phrase, and put pieces back
//! together. Each executable function is stated against a spec function on
//! sequences.
use vstd::prelude::*;

verus! {

/// The position of the first `c` in `s`, or `s.len()` where `s` holds no `c`.
pub open spec fn first_index<A>(s: Seq<A>, c: A) -> int
    decreases s.len(),
{
    if s.len() == 0 || s[0] == c {
        0
    } else {
        1 + first_index(s.skip(1), c)
    }
}

/// What stands in `s` before the first `c`: all of `s` where it holds no `c`.
pub open spec fn before(s: Seq<char>, c: char) -> Seq<char> {
    s.take(first_index(s, c))
}

/// What stands in `s` behind the first `c`: nothing where it holds no `c`.
pub open spec fn after(s: Seq<char>, c: char) -> Seq<char> {
    let i = first_index(s, c);
    if 0 <= i < s.len() {
        s.skip(i + 1)
    } else {
        Seq::empty()
    }
}

/// `pat` stands in `s` at position `i`.
pub open spec fn occurs_at(s: Seq<char>, pat: Seq<char>, i: int) -> bool {
    0 <= i && i + pat.len() <= s.len() && s.subrange(i, i + pat.len()) == pat
}

/// `pat` stands somewhere in `s`, as one uninterrupted run of characters.
pub open spec fn contains(s: Seq<char>, pat: Seq<char>) -> bool {
    exists|i: int| occurs_at(s, pat, i)
}

/// `s` without one carriage return at its end, if it ends in one.
pub open spec fn strip_cr(s: Seq<char>) -> Seq<char> {
    if s.len() > 0 && s.last() == '\r' {
        s.drop_last()
    } else {
        s
    }
}

/// The lines of `s`. A line ends at a line feed, which is not part of it, nor
/// is a carriage return directly before that line feed. What follows the last
/// line feed is a line of its own unless it is empty, and keeps a carriage
/// return at its end.
pub open spec fn lines(s: Seq<char>) -> Seq<Seq<char>>
    decreases s.len(),
{
    let i = first_index(s, '\n');
    if 0 <= i < s.len() {
        seq![strip_cr(s.take(i))] + lines(s.skip(i + 1))
    } else if s.len() == 0 {
        Seq::empty()
    } else {
        seq![s]
    }
}

/// The pieces of `parts` in order, with `sep` between each two neighbours.
pub open spec fn join(parts: Seq<Seq<char>>, sep: Seq<char>) -> Seq<char>
    decreases parts.len(),
{
    if parts.len() == 0 {
        Seq::empty()
    } else if parts.len() == 1 {
        parts[0]
    } else {
        join(parts.drop_last(), sep) + sep + parts.last()
    }
}

/// The character that writes the digit `d`.
pub open spec fn digit(d: nat) -> char {
    if d == 0 {
        '0'
    } else if d == 1 {
        '1'
    } else if d == 2 {
        '2'
    } else if d == 3 {
        '3'
    } else if d == 4 {
        '4'
    } else if d == 5 {
        '5'
    } else if d == 6 {
        '6'
    } else if d == 7 {
        '7'
    } else if d == 8 {
        '8'
    } else {
        '9'
    }
}

/// `n` written in base ten, without leading zeros.
pub open spec fn decimal(n: nat) -> Seq<char>
    decreases n,
{
    if n < 10 {
        seq![digit(n)]
    } else {
        decimal(n / 10).push(digit(n % 10))
    }
}

/// The views of the rows of `v`.
pub open spec fn rows(v: Seq<Vec<char>>) -> Seq<Seq<char>> {
    Seq::new(v.len(), |i: int| v[i]@)
}

/// The views of the strings of `v`.
pub open spec fn texts(v: Seq<String>) -> Seq<Seq<char>> {
    Seq::new(v.len(), |i: int| v[i]@)
}

/// `first_index` stays within `s`, nothing before it is `c`, and where it is
/// inside `s` it points at a `c`.
pub proof fn lemma_first_index<A>(s: Seq<A>, c: A)
    ensures
        0 <= first_index(s, c) <= s.len(),
        forall|j: int| 0 <= j < first_index(s, c) ==> s[j] != c,
        first_index(s, c) < s.len() ==> s[first_index(s, c)] == c,
    decreases s.len(),
{
    if s.len() == 0 || s[0] == c {
    } else {
        lemma_first_index(s.skip(1), c);
        assert forall|j: int| 0 <= j < first_index(s, c) implies s[j] != c by {
            if j > 0 {
                assert(s.skip(1)[j - 1] == s[j]);
            }
        }
    }
}

/// A position with no `c` before it, which is the end of `s` or holds a `c`,
/// is the first index of `c`.
pub proof fn lemma_first_index_is<A>(s: Seq<A>, c: A, i: int)
    requires
        0 <= i <= s.len(),
        forall|j: int| 0 <= j < i ==> s[j] != c,
        i < s.len() ==> s[i] == c,
    ensures
        first_index(s, c) == i,
{
    lemma_first_index(s, c);
}

/// `first_index` points into `s` exactly where `s` holds a `c`.
pub proof fn lemma_first_index_contains<A>(s: Seq<A>, c: A)
    ensures
        s.contains(c) <==> first_index(s, c) < s.len(),
{
    lemma_first_index(s, c);
    if first_index(s, c) < s.len() {
        assert(s[first_index(s, c)] == c);
    }
}

/// A text without a line feed, ended by one, is one line.
pub proof fn lemma_lines_of_one(line: Seq<char>)
    requires
        !line.contains('\n'),
    ensures
        lines(line + seq!['\n']) == seq![strip_cr(line)],
{
    let s = line + seq!['\n'];
    let n = line.len() as int;
    lemma_first_index_contains(line, '\n');
    lemma_first_index(line, '\n');
    lemma_first_index_is(s, '\n', n);
    assert(s.take(n) == line);
    assert(s.skip(n + 1) == Seq::<char>::empty());
    assert(lines(s.skip(n + 1)) == Seq::<Seq<char>>::empty());
}

/// The lines of two texts with a line feed between them: the lines of the
/// first, ended by the line feed, and then the lines of the second.
pub proof fn lemma_lines_of_two(a: Seq<char>, b: Seq<char>)
    ensures
        lines(a + seq!['\n'] + b) == lines(a + seq!['\n']) + lines(b),
    decreases a.len(),
{
    let s = a + seq!['\n'] + b;
    let t = a + seq!['\n'];
    let n = a.len() as int;
    let i = first_index(a, '\n');
    lemma_first_index(a, '\n');
    if i < a.len() {
        let rest = a.skip(i + 1);
        lemma_first_index_is(s, '\n', i);
        lemma_first_index_is(t, '\n', i);
        assert(s.take(i) == a.take(i));
        assert(t.take(i) == a.take(i));
        assert(s.skip(i + 1) == rest + seq!['\n'] + b);
        assert(t.skip(i + 1) == rest + seq!['\n']);
        lemma_lines_of_two(rest, b);
        assert(lines(s) == seq![strip_cr(a.take(i))] + (lines(rest + seq!['\n']) + lines(b)));
    } else {
        lemma_first_index_is(s, '\n', n);
        lemma_first_index_is(t, '\n', n);
        assert(s.take(n) == a);
        assert(t.take(n) == a);
        assert(s.skip(n + 1) == b);
        assert(t.skip(n + 1) == Seq::<char>::empty());
        assert(lines(t.skip(n + 1)) == Seq::<Seq<char>>::empty());
    }
}

/// What a line feed at the end of a text does to its lines. Behind a text
/// that is empty or ends in a line feed it adds an empty line. Otherwise it
/// ends the last line, which thereby loses a carriage return at its end.
pub proof fn lemma_lines_ended(a: Seq<char>)
    ensures
        a.len() == 0 || a.last() == '\n' ==> lines(a + seq!['\n']) == lines(a).push(Seq::empty()),
        a.len() > 0 && a.last() != '\n' ==> {
            &&& lines(a).len() > 0
            &&& lines(a).last().len() > 0
            &&& lines(a).last().last() == a.last()
            &&& lines(a + seq!['\n']) == lines(a).drop_last().push(strip_cr(lines(a).last()))
        },
    decreases a.len(),
{
    let t = a + seq!['\n'];
    let n = a.len() as int;
    let i = first_index(a, '\n');
    lemma_first_index(a, '\n');
    if i < a.len() {
        let rest = a.skip(i + 1);
        let head = seq![strip_cr(a.take(i))];
        lemma_first_index_is(t, '\n', i);
        assert(t.take(i) == a.take(i));
        assert(t.skip(i + 1) == rest + seq!['\n']);
        lemma_lines_ended(rest);
        assert(lines(a) == head + lines(rest));
        assert(lines(t) == head + lines(rest + seq!['\n']));
        if rest.len() == 0 {
            assert(a.last() == '\n');
            assert(lines(t) == lines(a).push(Seq::empty()));
        } else {
            assert(a.last() == rest.last());
            if rest.last() == '\n' {
                assert(lines(t) == lines(a).push(Seq::empty()));
            } else {
                assert(lines(a).last() == lines(rest).last());
                assert(lines(a).drop_last() == head + lines(rest).drop_last());
                assert(lines(t) == lines(a).drop_last().push(strip_cr(lines(a).last())));
            }
        }
    } else {
        lemma_first_index_is(t, '\n', n);
        assert(t.take(n) == a);
        assert(t.skip(n + 1) == Seq::<char>::empty());
        assert(lines(t.skip(n + 1)) == Seq::<Seq<char>>::empty());
        assert(lines(t) == seq![strip_cr(a)]);
        if a.len() == 0 {
            assert(a == Seq::<char>::empty());
            assert(lines(a) == Seq::<Seq<char>>::empty());
            assert(lines(t) == lines(a).push(Seq::empty()));
        } else {
            assert(lines(a) == seq![a]);
            assert(lines(a).drop_last() == Seq::<Seq<char>>::empty());
            assert(lines(t) == lines(a).drop_last().push(strip_cr(lines(a).last())));
        }
    }
}

/// The characters of a string slice.
pub fn to_chars(s: &str) -> (v: Vec<char>)
    ensures
        v@ == s@,
{
    let mut v: Vec<char> = Vec::new();
    let cs = s.chars();
    for c in it: cs
        invariant
            v@ == it.seq().take(it.index() as int),
            it.seq() == s@,
    {
        v.push(c);
    }
    v
}

/// `String::push`: the string afterwards is the string before with `c` at its
/// end.
#[verifier::external_body]
fn push_char(s: &mut String, c: char)
    ensures
        final(s)@ == old(s)@.push(c),
{
    s.push(c)
}

/// The string that holds the characters of `v`.
pub fn from_chars(v: &Vec<char>) -> (s: String)
    ensures
        s@ == v@,
{
    let mut s = String::new();
    let mut i: usize = 0;
    while i < v.len()
        invariant
            i <= v.len(),
            s@ == v@.take(i as int),
        decreases v.len() - i,
    {
        push_char(&mut s, v[i]);
        i += 1;
    }
    s
}

/// A copy of the characters of `s` from position `from` up to, not including,
/// position `to`.
pub fn slice(s: &Vec<char>, from: usize, to: usize) -> (v: Vec<char>)
    requires
        from <= to <= s.len(),
    ensures
        v@ == s@.subrange(from as int, to as int),
{
    let mut v: Vec<char> = Vec::new();
    let mut i: usize = from;
    while i < to
        invariant
            from <= i <= to <= s.len(),
            v@ == s@.subrange(from as int, i as int),
        decreases to - i,
    {
        v.push(s[i]);
        i += 1;
    }
    v
}

/// Puts the characters of `src` at the end of `dst`.
pub fn push_all(dst: &mut Vec<char>, src: &Vec<char>)
    ensures
        final(dst)@ == old(dst)@ + src@,
{
    let mut i: usize = 0;
    while i < src.len()
        invariant
            i <= src.len(),
            dst@ == old(dst)@ + src@.take(i as int),
        decreases src.len() - i,
    {
        dst.push(src[i]);
        i += 1;
    }
}

/// Puts the characters of the string slice `src` at the end of `dst`.
pub fn push_str(dst: &mut Vec<char>, src: &str)
    ensures
        final(dst)@ == old(dst)@ + src@,
{
    let chars = to_chars(src);
    push_all(dst, &chars);
}

/// Whether two rows of characters are the same.
pub fn same(a: &Vec<char>, b: &Vec<char>) -> (r: bool)
    ensures
        r == (a@ == b@),
{
    if a.len() != b.len() {
        return false;
    }
    let mut i: usize = 0;
    while i < a.len()
        invariant
            i <= a.len(),
            a.len() == b.len(),
            a@.take(i as int) == b@.take(i as int),
        decreases a.len() - i,
    {
        if a[i] != b[i] {
            return false;
        }
        assert(a@.take(i + 1) == a@.take(i as int).push(a@[i as int]));
        assert(b@.take(i + 1) == b@.take(i as int).push(b@[i as int]));
        i += 1;
    }
    assert(a@ == a@.take(a.len() as int));
    assert(b@ == b@.take(b.len() as int));
    true
}

/// The position of the first `c` at or behind position `from`, or the length
/// of `s` where none follows.
pub fn find_char(s: &Vec<char>, from: usize, c: char) -> (i: usize)
    requires
        from <= s.len(),
    ensures
        from <= i <= s.len(),
        i == from + first_index(s@.skip(from as int), c),
{
    let mut i: usize = from;
    while i < s.len() && s[i] != c
        invariant
            from <= i <= s.len(),
            forall|j: int| from <= j < i ==> s@[j] != c,
        decreases s.len() - i,
    {
        i += 1;
    }
    proof {
        lemma_first_index_is(s@.skip(from as int), c, i - from);
    }
    i
}

/// Whether `pat` stands somewhere in `s`.
pub fn has(s: &Vec<char>, pat: &Vec<char>) -> (r: bool)
    ensures
        r == contains(s@, pat@),
{
    if pat.len() > s.len() {
        assert forall|i: int| !occurs_at(s@, pat@, i) by {}
        return false;
    }
    let last: usize = s.len() - pat.len();
    let mut i: usize = 0;
    while i <= last
        invariant
            pat.len() <= s.len(),
            last == s.len() - pat.len(),
            i <= last + 1,
            forall|k: int| 0 <= k < i ==> !occurs_at(s@, pat@, k),
        decreases last + 1 - i,
    {
        let mut j: usize = 0;
        while j < pat.len() && s[i + j] == pat[j]
            invariant
                i <= last,
                last == s.len() - pat.len(),
                pat.len() <= s.len(),
                j <= pat.len(),
                forall|k: int| 0 <= k < j ==> s@[i + k] == pat@[k],
            decreases pat.len() - j,
        {
            j += 1;
        }
        if j == pat.len() {
            assert(s@.subrange(i as int, i + pat.len()) == pat@);
            assert(occurs_at(s@, pat@, i as int));
            return true;
        }
        assert(!occurs_at(s@, pat@, i as int)) by {
            if occurs_at(s@, pat@, i as int) {
                assert(s@.subrange(i as int, i + pat.len())[j as int] == pat@[j as int]);
            }
        }
        i += 1;
    }
    assert forall|k: int| !occurs_at(s@, pat@, k) by {}
    false
}

/// The lines of `text`, each as a row of its own.
pub fn split_lines(text: &Vec<char>) -> (out: Vec<Vec<char>>)
    ensures
        rows(out@) == lines(text@),
{
    let mut out: Vec<Vec<char>> = Vec::new();
    let mut start: usize = 0;
    let n = text.len();
    assert(text@.skip(0) == text@);
    assert(rows(out@) == Seq::<Seq<char>>::empty());
    while start < n
        invariant
            n == text.len(),
            start <= n,
            lines(text@) == rows(out@) + lines(text@.skip(start as int)),
        decreases n - start,
    {
        let end = find_char(text, start, '\n');
        let ghost rest = text@.skip(start as int);
        let ghost old_rows = rows(out@);
        if end < n {
            let mut stop = end;
            if stop > start && text[stop - 1] == '\r' {
                stop = stop - 1;
            }
            let line = slice(text, start, stop);
            proof {
                assert(rest.take(end - start) == text@.subrange(start as int, end as int));
                assert(line@ == strip_cr(rest.take(end - start)));
                assert(rest.skip(end - start + 1) == text@.skip(end + 1));
            }
            out.push(line);
            assert(rows(out@) == old_rows + seq![line@]);
            start = end + 1;
        } else {
            let line = slice(text, start, n);
            proof {
                assert(line@ == rest);
                assert(lines(rest) == seq![rest]);
                assert(lines(text@.skip(n as int)) == Seq::<Seq<char>>::empty());
            }
            out.push(line);
            assert(rows(out@) == old_rows + seq![line@]);
            start = n;
        }
    }
    assert(lines(text@.skip(n as int)) == Seq::<Seq<char>>::empty());
    out
}

/// The rows of `parts` in order, with `sep` between each two neighbours.
pub fn join_rows(parts: &Vec<Vec<char>>, sep: &Vec<char>) -> (out: Vec<char>)
    ensures
        out@ == join(rows(parts@), sep@),
{
    let mut out: Vec<char> = Vec::new();
    let mut i: usize = 0;
    while i < parts.len()
        invariant
            i <= parts.len(),
            out@ == join(rows(parts@).take(i as int), sep@),
        decreases parts.len() - i,
    {
        proof {
            let done = rows(parts@).take(i as int);
            let next = rows(parts@).take(i + 1);
            assert(next.drop_last() == done);
            assert(next.last() == parts@[i as int]@);
            if i > 0 {
                assert(join(next, sep@) == join(done, sep@) + sep@ + next.last());
            } else {
                assert(done.len() == 0);
                assert(join(next, sep@) == next[0]);
            }
        }
        if i > 0 {
            push_all(&mut out, sep);
        }
        push_all(&mut out, &parts[i]);
        i += 1;
    }
    assert(rows(parts@).take(parts.len() as int) == rows(parts@));
    out
}

/// The character that writes the digit `d`.
pub fn digit_char(d: usize) -> (c: char)
    requires
        d < 10,
    ensures
        c == digit(d as nat),
{
    if d == 0 {
        '0'
    } else if d == 1 {
        '1'
    } else if d == 2 {
        '2'
    } else if d == 3 {
        '3'
    } else if d == 4 {
        '4'
    } else if d == 5 {
        '5'
    } else if d == 6 {
        '6'
    } else if d == 7 {
        '7'
    } else if d == 8 {
        '8'
    } else {
        '9'
    }
}

/// Writes `n` in base ten at the end of `out`.
pub fn push_decimal(out: &mut Vec<char>, n: usize)
    ensures
        final(out)@ == old(out)@ + decimal(n as nat),
    decreases n,
{
    if n >= 10 {
        push_decimal(out, n / 10);
    }
    out.push(digit_char(n % 10));
}

} // verus!
