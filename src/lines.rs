use vstd::prelude::*;
use vstd::std_specs::iter::IteratorSpec;
use vstd::string::StrSliceExecFns;

verus! {

/// Index of the first `c` in `s`, or the length of `s` when there is none.
pub open spec fn index_of(s: Seq<char>, c: char) -> int
    decreases s.len(),
{
    if s.len() == 0 {
        0
    } else if s[0] == c {
        0
    } else {
        1 + index_of(s.drop_first(), c)
    }
}

/// A line without the carriage return that ended it, if any.
pub open spec fn strip_cr(l: Seq<char>) -> Seq<char> {
    if l.len() > 0 && l.last() == '\r' {
        l.drop_last()
    } else {
        l
    }
}

/// The first line of `s`. A line ends at `\n` or at `\r\n`; the last line
/// needs no ending and keeps a lone `\r`.
pub open spec fn first_line(s: Seq<char>) -> Seq<char> {
    let e = index_of(s, '\n');
    if 0 <= e < s.len() {
        strip_cr(s.take(e))
    } else {
        s
    }
}

/// What follows the first line ending of `s`; empty when `s` holds a single line.
pub open spec fn after_first_line(s: Seq<char>) -> Seq<char> {
    let e = index_of(s, '\n');
    if 0 <= e < s.len() {
        s.skip(e + 1)
    } else {
        Seq::empty()
    }
}

/// The lines of `s`: none for the empty text, and no empty line for a final line ending.
pub open spec fn lines(s: Seq<char>) -> Seq<Seq<char>>
    decreases s.len(),
{
    if s.len() == 0 {
        seq![]
    } else {
        let e = index_of(s, '\n');
        if 0 <= e < s.len() {
            seq![strip_cr(s.take(e))] + lines(s.skip(e + 1))
        } else {
            seq![s]
        }
    }
}

/// Lines joined by `\n`, with no line ending after the last one.
pub open spec fn join_lines(ls: Seq<Seq<char>>) -> Seq<char>
    decreases ls.len(),
{
    if ls.len() == 0 {
        seq![]
    } else if ls.len() == 1 {
        ls[0]
    } else {
        ls[0] + seq!['\n'] + join_lines(ls.drop_first())
    }
}

/// The text left once the first line of `s` is taken: its other lines, joined again.
pub open spec fn rest_after_line(s: Seq<char>) -> Seq<char> {
    join_lines(lines(after_first_line(s)))
}

/// `s` holds no `\r` right before a `\n`.
pub open spec fn no_crlf(s: Seq<char>) -> bool {
    forall|i: int| 0 < i < s.len() && #[trigger] s[i] == '\n' ==> s[i - 1] != '\r'
}

/// `index_of` lies within the text, no earlier character is the one sought, and
/// the character at that index is, unless the index is the length.
pub proof fn lemma_index_of_bounds(s: Seq<char>, c: char)
    ensures
        0 <= index_of(s, c) <= s.len(),
        forall|j: int| 0 <= j < index_of(s, c) ==> s[j] != c,
        index_of(s, c) < s.len() ==> s[index_of(s, c)] == c,
    decreases s.len(),
{
    if s.len() > 0 && s[0] != c {
        lemma_index_of_bounds(s.drop_first(), c);
        assert forall|j: int| 0 <= j < index_of(s, c) implies s[j] != c by {
            if j > 0 {
                assert(s[j] == s.drop_first()[j - 1]);
            }
        }
    }
}

/// An index before which `c` does not occur, and at which `c` stands or the
/// text ends, is `index_of`.
pub proof fn lemma_index_of_is(s: Seq<char>, c: char, e: int)
    requires
        0 <= e <= s.len(),
        forall|j: int| 0 <= j < e ==> s[j] != c,
        e == s.len() || s[e] == c,
    ensures
        index_of(s, c) == e,
    decreases s.len(),
{
    if s.len() > 0 && s[0] != c {
        let t = s.drop_first();
        assert forall|j: int| 0 <= j < e - 1 implies t[j] != c by {
            assert(t[j] == s[j + 1]);
        }
        if e < s.len() {
            assert(t[e - 1] == s[e]);
        }
        lemma_index_of_is(t, c, e - 1);
    }
}

/// The lines of a non-empty text are its first line, then the lines of what follows it.
pub proof fn lemma_lines_unfold(s: Seq<char>)
    requires
        s.len() > 0,
    ensures
        lines(s) == seq![first_line(s)] + lines(after_first_line(s)),
        after_first_line(s).len() < s.len(),
{
    lemma_index_of_bounds(s, '\n');
    let e = index_of(s, '\n');
    if e == s.len() {
        assert(lines(after_first_line(s)) == Seq::<Seq<char>>::empty());
        assert(seq![first_line(s)] + lines(after_first_line(s)) =~= seq![s]);
    }
}

/// Joining a line in front of other lines puts a `\n` between them.
pub proof fn lemma_join_cons(x: Seq<char>, ls: Seq<Seq<char>>)
    ensures
        join_lines(seq![x] + ls) == if ls.len() == 0 {
            x
        } else {
            x + seq!['\n'] + join_lines(ls)
        },
{
    assert((seq![x] + ls).drop_first() =~= ls);
    assert((seq![x] + ls)[0] == x);
}

/// Gathering the lines of a text gives the text back, where it holds no
/// `\r\n` and does not end in a line ending.
pub proof fn lemma_join_lines_restores(t: Seq<char>)
    requires
        no_crlf(t),
        t.len() == 0 || t.last() != '\n',
    ensures
        join_lines(lines(t)) == t,
    decreases t.len(),
{
    if t.len() > 0 {
        lemma_index_of_bounds(t, '\n');
        lemma_lines_unfold(t);
        let e = index_of(t, '\n');
        if e < t.len() {
            let u = t.skip(e + 1);
            assert(e < t.len() - 1);
            assert(u.len() > 0);
            if e > 0 {
                assert(t.take(e).last() == t[e - 1]);
            }
            assert(strip_cr(t.take(e)) == t.take(e));
            assert(no_crlf(u)) by {
                assert forall|i: int| 0 < i < u.len() && #[trigger] u[i] == '\n' implies u[i - 1]
                    != '\r' by {
                    assert(u[i] == t[i + e + 1]);
                    assert(u[i - 1] == t[i + e]);
                }
            }
            assert(u.last() == t.last());
            lemma_join_lines_restores(u);
            lemma_lines_unfold(u);
            lemma_join_cons(t.take(e), lines(u));
            assert(t =~= t.take(e) + seq!['\n'] + u);
        } else {
            assert(lines(after_first_line(t)) =~= Seq::<Seq<char>>::empty());
            lemma_join_cons(first_line(t), lines(after_first_line(t)));
        }
    }
}

/// Taking the first line off a multi-line text leaves, once the other lines are
/// gathered again, exactly the text after the first line ending, where that
/// text holds no `\r\n` and does not end in a line ending.
pub proof fn lemma_rest_after_line_round_trip(s: Seq<char>)
    requires
        index_of(s, '\n') < s.len(),
        no_crlf(s.skip(index_of(s, '\n') + 1)),
        s.last() != '\n',
    ensures
        rest_after_line(s) == s.skip(index_of(s, '\n') + 1),
{
    lemma_index_of_bounds(s, '\n');
    let t = s.skip(index_of(s, '\n') + 1);
    if t.len() > 0 {
        assert(t.last() == s.last());
    }
    lemma_join_lines_restores(t);
}

/// A line that reads back as itself: it holds no line feed and does not end
/// in a carriage return.
pub open spec fn is_plain_line(l: Seq<char>) -> bool {
    !l.contains('\n') && (l.len() == 0 || l.last() != '\r')
}

/// A text that gathers back to itself: no `\r\n` in it, and no line ending at its end.
pub open spec fn is_plain_text(t: Seq<char>) -> bool {
    no_crlf(t) && (t.len() == 0 || t.last() != '\n')
}

/// The text made of the lines `ls`, a line feed, and then `t`.
pub open spec fn stacked(ls: Seq<Seq<char>>, t: Seq<char>) -> Seq<char> {
    join_lines(ls) + seq!['\n'] + t
}

/// Behind a plain line and a line feed, the first line is that line.
pub proof fn lemma_peel_line(l: Seq<char>, u: Seq<char>)
    requires
        is_plain_line(l),
    ensures
        index_of(l + seq!['\n'] + u, '\n') == l.len(),
        first_line(l + seq!['\n'] + u) == l,
        after_first_line(l + seq!['\n'] + u) == u,
{
    let s = l + seq!['\n'] + u;
    assert forall|j: int| 0 <= j < l.len() implies s[j] != '\n' by {
        assert(s[j] == l[j]);
        if l[j] == '\n' {
            assert(l.contains('\n'));
        }
    }
    lemma_index_of_is(s, '\n', l.len() as int);
    assert(s.take(l.len() as int) =~= l);
    assert(s.skip(l.len() + 1int) =~= u);
}

/// A plain line, a line feed and a non-empty plain text make a plain text.
pub proof fn lemma_plain_cons(l: Seq<char>, u: Seq<char>)
    requires
        is_plain_line(l),
        is_plain_text(u),
        u.len() > 0,
    ensures
        is_plain_text(l + seq!['\n'] + u),
{
    let s = l + seq!['\n'] + u;
    assert forall|i: int| 0 < i < s.len() && #[trigger] s[i] == '\n' implies s[i - 1] != '\r' by {
        if i < l.len() {
            assert(l[i] == s[i]);
            assert(l.contains('\n'));
        } else if i == l.len() {
            assert(s[i - 1] == l.last());
        } else if i == l.len() + 1 {
            assert(s[i - 1] == '\n');
        } else {
            assert(s[i] == u[i - l.len() - 1]);
            assert(s[i - 1] == u[i - l.len() - 2]);
        }
    }
    assert(s.last() == u.last());
}

/// A text stacked from plain lines and a non-empty plain text is itself plain,
/// and its first line is the first of those lines.
pub proof fn lemma_stacked(ls: Seq<Seq<char>>, t: Seq<char>)
    requires
        ls.len() > 0,
        forall|i: int| 0 <= i < ls.len() ==> is_plain_line(#[trigger] ls[i]),
        is_plain_text(t),
        t.len() > 0,
    ensures
        is_plain_text(stacked(ls, t)),
        stacked(ls, t).len() > 0,
        first_line(stacked(ls, t)) == ls[0],
        rest_after_line(stacked(ls, t)) == if ls.len() == 1 {
            t
        } else {
            stacked(ls.drop_first(), t)
        },
        lines(stacked(ls, t)) == ls + lines(t),
    decreases ls.len(),
{
    let tail = if ls.len() == 1 {
        t
    } else {
        stacked(ls.drop_first(), t)
    };
    lemma_join_cons(ls[0], ls.drop_first());
    assert(ls =~= seq![ls[0]] + ls.drop_first());
    if ls.len() > 1 {
        lemma_stacked(ls.drop_first(), t);
        assert(stacked(ls, t) =~= ls[0] + seq!['\n'] + tail);
    } else {
        assert(stacked(ls, t) =~= ls[0] + seq!['\n'] + tail);
    }
    lemma_peel_line(ls[0], tail);
    lemma_plain_cons(ls[0], tail);
    lemma_join_lines_restores(tail);
    lemma_lines_unfold(stacked(ls, t));
    if ls.len() > 1 {
        assert(lines(stacked(ls, t)) =~= ls + lines(t));
    } else {
        assert(lines(stacked(ls, t)) =~= ls + lines(t));
    }
}

/// The characters of `s`, in order.
pub fn chars_of(s: &str) -> (r: Vec<char>)
    ensures
        r@ == s@,
{
    let mut it = s.chars();
    let mut out: Vec<char> = Vec::new();
    loop
        invariant
            it.remaining() == s@.skip(out@.len() as int),
            out@ == s@.take(out@.len() as int),
            out@.len() <= s@.len(),
            it.decrease() is Some,
        decreases it.decrease()->0,
    {
        match it.next() {
            Some(c) => {
                proof {
                    assert(s@.skip(out@.len() as int)[0] == c);
                }
                out.push(c);
                assert(out@ == s@.take(out@.len() as int));
            },
            None => {
                assert(out@ == s@);
                return out;
            },
        }
    }
}

/// Index of the first `c` in `v` at or after `from`, or the length of `v`.
pub(crate) fn find_char_from(v: &Vec<char>, from: usize, c: char) -> (e: usize)
    requires
        from <= v@.len(),
    ensures
        e == from + index_of(v@.skip(from as int), c),
        from <= e <= v@.len(),
{
    let mut i = from;
    while i < v.len() && v[i] != c
        invariant
            from <= i <= v@.len(),
            forall|j: int| from <= j < i ==> v@[j] != c,
        decreases v@.len() - i,
    {
        i = i + 1;
    }
    proof {
        let t = v@.skip(from as int);
        assert forall|j: int| 0 <= j < i - from implies t[j] != c by {
            assert(t[j] == v@[j + from]);
        }
        if i < v@.len() {
            assert(t[i - from] == v@[i as int]);
        }
        lemma_index_of_is(t, c, i - from);
    }
    i
}

/// The first line of the text that starts at `from`, and the index where the
/// line after it starts.
pub(crate) fn line_at(s: &str, v: &Vec<char>, from: usize) -> (r: (String, usize))
    requires
        v@ == s@,
        from < v@.len(),
    ensures
        r.0@ == first_line(s@.skip(from as int)),
        from < r.1 <= v@.len(),
        s@.skip(r.1 as int) == after_first_line(s@.skip(from as int)),
{
    let e = find_char_from(v, from, '\n');
    let ghost t = s@.skip(from as int);
    if e < v.len() {
        let end = if e > from && v[e - 1] == '\r' {
            e - 1
        } else {
            e
        };
        let line = s.substring_char(from, end).to_string();
        proof {
            assert(t.take(e - from) =~= s@.subrange(from as int, e as int));
            if e > from {
                assert(t.take(e - from).last() == v@[e - 1]);
            }
            assert(s@.skip(e + 1) =~= t.skip(e - from + 1));
        }
        (line, e + 1)
    } else {
        let line = s.substring_char(from, v.len()).to_string();
        proof {
            assert(s@.subrange(from as int, v@.len() as int) =~= t);
            assert(s@.skip(v@.len() as int) =~= Seq::<char>::empty());
        }
        (line, v.len())
    }
}

/// The lines of the text that starts at `from`, joined by `\n`.
pub(crate) fn gather_from(s: &str, v: &Vec<char>, from: usize) -> (r: String)
    requires
        v@ == s@,
        from <= v@.len(),
    ensures
        r@ == join_lines(lines(s@.skip(from as int))),
{
    let mut out = String::new();
    let mut i = from;
    while i < v.len()
        invariant
            v@ == s@,
            from <= i <= v@.len(),
            i == from ==> out@.len() == 0,
            join_lines(lines(s@.skip(from as int))) == if i == from {
                join_lines(lines(s@.skip(i as int)))
            } else if lines(s@.skip(i as int)).len() == 0 {
                out@
            } else {
                out@ + seq!['\n'] + join_lines(lines(s@.skip(i as int)))
            },
        decreases v@.len() - i,
    {
        let (line, next) = line_at(s, v, i);
        let ghost before = out@;
        proof {
            lemma_lines_unfold(s@.skip(i as int));
            lemma_join_cons(line@, lines(s@.skip(next as int)));
        }
        if i > from {
            out.append("\n");
            proof {
                assert("\n"@ =~= seq!['\n']) by {
                    reveal_strlit("\n");
                }
            }
        }
        out.append(line.as_str());
        proof {
            let rest = lines(s@.skip(next as int));
            if i > from {
                assert(out@ =~= before + seq!['\n'] + line@);
                if rest.len() > 0 {
                    assert(before + seq!['\n'] + (line@ + seq!['\n'] + join_lines(rest)) =~= out@
                        + seq!['\n'] + join_lines(rest));
                }
            } else {
                assert(out@ =~= line@);
            }
        }
        i = next;
    }
    proof {
        assert(s@.skip(i as int) =~= Seq::<char>::empty());
        if i == from {
            assert(out@ =~= Seq::<char>::empty());
        }
    }
    out
}

/// Joins the lines of `text` by `\n`: line endings become a single `\n`, and a
/// final line ending is dropped.
pub fn gather(text: &str) -> (r: String)
    ensures
        r@ == join_lines(lines(text@)),
{
    let v = chars_of(text);
    let r = gather_from(text, &v, 0);
    assert(text@.skip(0) =~= text@);
    r
}

} // verus!
