use vstd::prelude::*;
use vstd::std_specs::iter::IteratorSpec;
use crate::text::string_views;

verus! {

/// Whether a character is white space, as `char::is_whitespace` decides.
pub uninterp spec fn is_space(c: char) -> bool;

/// Relies on `char::is_whitespace`: the Unicode `White_Space` property,
/// which depends on the character alone.
#[verifier::external_body]
fn space_char(c: char) -> (r: bool)
    ensures
        r == is_space(c),
{
    c.is_whitespace()
}

/// Relies on `String::push`: appends one character.
#[verifier::external_body]
fn push_char(s: &mut String, c: char)
    ensures
        final(s)@ == old(s)@.push(c),
{
    s.push(c)
}

/// The characters of `s`, in order.
pub fn chars_of(s: &str) -> (r: Vec<char>)
    ensures
        r@ == s@,
{
    let mut out: Vec<char> = Vec::new();
    let mut it = s.chars();
    loop
        invariant_except_break
            out@ + it.remaining() == s@,
            it.obeys_prophetic_iter_laws(),
            it.decrease() is Some,
        ensures
            out@ == s@,
        decreases it.decrease()->0,
    {
        match it.next() {
            Some(c) => {
                out.push(c);
            },
            None => {
                break;
            },
        }
    }
    out
}

/// The text of `v[from..to]`.
pub(crate) fn text_of(v: &Vec<char>, from: usize, to: usize) -> (r: String)
    requires
        from <= to <= v.len(),
    ensures
        r@ == v@.subrange(from as int, to as int),
{
    let mut s = String::new();
    let mut i = from;
    while i < to
        invariant
            from <= i <= to <= v.len(),
            s@ == v@.subrange(from as int, i as int),
        decreases to - i,
    {
        push_char(&mut s, v[i]);
        i = i + 1;
        assert(s@ =~= v@.subrange(from as int, i as int));
    }
    s
}

/// The pieces of `s` between line feeds; one more piece than line feeds.
pub open spec fn split_nl(s: Seq<char>) -> Seq<Seq<char>>
    decreases s.len(),
{
    if s.len() == 0 {
        seq![Seq::empty()]
    } else {
        let p = split_nl(s.drop_last());
        if s.last() == '\n' {
            p.push(Seq::empty())
        } else {
            p.update(p.len() - 1, p.last().push(s.last()))
        }
    }
}

/// A line without the carriage return that ended it, if any.
pub open spec fn strip_cr(l: Seq<char>) -> Seq<char> {
    if l.len() > 0 && l.last() == '\r' {
        l.drop_last()
    } else {
        l
    }
}

/// The lines of `s` as `str::lines` yields them: split at `\n` or `\r\n`,
/// without the endings; a final ending adds no empty line.
pub open spec fn lines_spec(s: Seq<char>) -> Seq<Seq<char>> {
    let p = split_nl(s);
    let ended = p.drop_last().map_values(|l: Seq<char>| strip_cr(l));
    if p.last().len() == 0 {
        ended
    } else {
        ended.push(p.last())
    }
}

proof fn lemma_split_nl_nonempty(s: Seq<char>)
    ensures
        split_nl(s).len() >= 1,
    decreases s.len(),
{
    if s.len() > 0 {
        lemma_split_nl_nonempty(s.drop_last());
    }
}

/// The lines of `text`, as `str::lines` yields them.
pub fn split_lines(text: &str) -> (r: Vec<String>)
    ensures
        string_views(r@) == lines_spec(text@),
{
    let cs = chars_of(text);
    let mut out: Vec<String> = Vec::new();
    let mut start: usize = 0;
    let mut i: usize = 0;
    while i < cs.len()
        invariant
            cs@ == text@,
            start <= i <= cs.len(),
            split_nl(cs@.subrange(0, i as int)).len() >= 1,
            string_views(out@) == split_nl(cs@.subrange(0, i as int)).drop_last().map_values(
                |l: Seq<char>| strip_cr(l),
            ),
            split_nl(cs@.subrange(0, i as int)).last() == cs@.subrange(start as int, i as int),
        decreases cs.len() - i,
    {
        let ghost prev = cs@.subrange(0, i as int);
        let ghost next = cs@.subrange(0, i + 1);
        assert(next.drop_last() =~= prev);
        proof {
            lemma_split_nl_nonempty(next);
        }
        if cs[i] == '\n' {
            let end = if i > start && cs[i - 1] == '\r' {
                i - 1
            } else {
                i
            };
            let line = text_of(&cs, start, end);
            let ghost before = out@;
            out.push(line);
            proof {
                let cur = cs@.subrange(start as int, i as int);
                assert(line@ =~= strip_cr(cur));
                assert(string_views(out@) =~= string_views(before).push(line@));
                assert(split_nl(next).drop_last() =~= split_nl(prev));
                assert(string_views(out@) =~= split_nl(next).drop_last().map_values(
                    |l: Seq<char>| strip_cr(l),
                ));
            }
            start = i + 1;
        } else {
            proof {
                assert(split_nl(next).drop_last() =~= split_nl(prev).drop_last());
            }
        }
        i = i + 1;
        assert(split_nl(cs@.subrange(0, i as int)).last() =~= cs@.subrange(start as int, i as int));
    }
    assert(cs@.subrange(0, i as int) =~= text@);
    if start < cs.len() {
        let last = text_of(&cs, start, cs.len());
        let ghost before = out@;
        out.push(last);
        assert(string_views(out@) =~= string_views(before).push(last@));
    }
    out
}

/// Line `index` of `text`, counting from zero, as `str::lines` numbers them.
pub fn get_line_at(text: &str, index: usize) -> (r: Option<String>)
    ensures
        index < lines_spec(text@).len() ==> r is Some && r->0@ == lines_spec(text@)[index as int],
        index >= lines_spec(text@).len() ==> r is None,
{
    let mut lines = split_lines(text);
    if index < lines.len() {
        assert(lines@[index as int]@ == string_views(lines@)[index as int]);
        Some(lines.swap_remove(index))
    } else {
        None
    }
}

/// `s` without its leading white space.
pub open spec fn trim_start_spec(s: Seq<char>) -> Seq<char>
    decreases s.len(),
{
    if s.len() > 0 && is_space(s[0]) {
        trim_start_spec(s.drop_first())
    } else {
        s
    }
}

/// `s` without its trailing white space.
pub open spec fn trim_end_spec(s: Seq<char>) -> Seq<char>
    decreases s.len(),
{
    if s.len() > 0 && is_space(s.last()) {
        trim_end_spec(s.drop_last())
    } else {
        s
    }
}

/// `s` without leading and trailing white space, as `str::trim` gives it.
pub open spec fn trim_spec(s: Seq<char>) -> Seq<char> {
    trim_end_spec(trim_start_spec(s))
}

proof fn lemma_trim_start(s: Seq<char>, a: int)
    requires
        0 <= a <= s.len(),
        forall|k: int| 0 <= k < a ==> is_space(s[k]),
        a == s.len() || !is_space(s[a]),
    ensures
        trim_start_spec(s) == s.subrange(a, s.len() as int),
    decreases a,
{
    if a > 0 {
        lemma_trim_start(s.drop_first(), a - 1);
        assert(s.drop_first().subrange(a - 1, s.len() - 1) =~= s.subrange(a, s.len() as int));
    } else {
        assert(s.subrange(0, s.len() as int) =~= s);
    }
}

proof fn lemma_trim_end(s: Seq<char>, b: int)
    requires
        0 <= b <= s.len(),
        forall|k: int| b <= k < s.len() ==> is_space(s[k]),
        b == 0 || !is_space(s[b - 1]),
    ensures
        trim_end_spec(s) == s.subrange(0, b),
    decreases s.len() - b,
{
    if b < s.len() {
        lemma_trim_end(s.drop_last(), b);
        assert(s.drop_last().subrange(0, b) =~= s.subrange(0, b));
    } else {
        assert(s.subrange(0, b) =~= s);
    }
}

/// `text` without leading white space.
pub fn trim_start(text: &str) -> (r: String)
    ensures
        r@ == trim_start_spec(text@),
{
    let cs = chars_of(text);
    let mut a: usize = 0;
    while a < cs.len() && space_char(cs[a])
        invariant
            cs@ == text@,
            a <= cs.len(),
            forall|k: int| 0 <= k < a ==> is_space(cs@[k]),
        decreases cs.len() - a,
    {
        a = a + 1;
    }
    proof {
        lemma_trim_start(cs@, a as int);
    }
    text_of(&cs, a, cs.len())
}

/// `text` without leading and trailing white space.
pub fn trim(text: &str) -> (r: String)
    ensures
        r@ == trim_spec(text@),
{
    let cs = chars_of(text);
    let mut a: usize = 0;
    while a < cs.len() && space_char(cs[a])
        invariant
            cs@ == text@,
            a <= cs.len(),
            forall|k: int| 0 <= k < a ==> is_space(cs@[k]),
        decreases cs.len() - a,
    {
        a = a + 1;
    }
    proof {
        lemma_trim_start(cs@, a as int);
    }
    let mut b: usize = cs.len();
    while b > a && space_char(cs[b - 1])
        invariant
            cs@ == text@,
            a <= b <= cs.len(),
            forall|k: int| b <= k < cs.len() ==> is_space(cs@[k]),
        decreases b,
    {
        b = b - 1;
    }
    proof {
        let t = cs@.subrange(a as int, cs.len() as int);
        assert forall|k: int| b - a <= k < t.len() implies is_space(t[k]) by {
            assert(t[k] == cs@[k + a]);
        }
        if b > a {
            assert(t[b - a - 1] == cs@[b - 1]);
        }
        lemma_trim_end(t, b - a);
        assert(t.subrange(0, b - a) =~= cs@.subrange(a as int, b as int));
    }
    text_of(&cs, a, b)
}

/// The maximal runs of characters that are not white space, as
/// `str::split_whitespace` yields them.
pub open spec fn tokens_spec(s: Seq<char>) -> Seq<Seq<char>>
    decreases s.len(),
{
    if s.len() == 0 {
        Seq::empty()
    } else {
        let t = tokens_spec(s.drop_last());
        if is_space(s.last()) {
            t
        } else if s.len() >= 2 && !is_space(s[s.len() - 2]) {
            t.update(t.len() - 1, t.last().push(s.last()))
        } else {
            t.push(seq![s.last()])
        }
    }
}

/// The words of `text`: its maximal runs of characters that are not white
/// space, in order.
pub fn split_whitespace(text: &str) -> (r: Vec<String>)
    ensures
        string_views(r@) == tokens_spec(text@),
{
    let cs = chars_of(text);
    let mut out: Vec<String> = Vec::new();
    let mut i: usize = 0;
    while i < cs.len()
        invariant
            cs@ == text@,
            i <= cs.len(),
            string_views(out@) == tokens_spec(cs@.subrange(0, i as int)),
            i < cs.len() && !is_space(cs@[i as int]) ==> i == 0 || is_space(cs@[i - 1]),
        decreases cs.len() - i,
    {
        if space_char(cs[i]) {
            let ghost prev = cs@.subrange(0, i as int);
            assert(cs@.subrange(0, i + 1).drop_last() =~= prev);
            i = i + 1;
        } else {
            let start = i;
            let ghost before = out@;
            let ghost base = tokens_spec(cs@.subrange(0, start as int));
            while i < cs.len() && !space_char(cs[i])
                invariant
                    cs@ == text@,
                    start < i || (start == i && i < cs.len() && !is_space(cs@[i as int])),
                    start <= i <= cs.len(),
                    base == tokens_spec(cs@.subrange(0, start as int)),
                    start == 0 || is_space(cs@[start - 1]),
                    forall|k: int| start <= k < i ==> !is_space(cs@[k]),
                    i > start ==> tokens_spec(cs@.subrange(0, i as int)) == base.push(
                        cs@.subrange(start as int, i as int),
                    ),
                decreases cs.len() - i,
            {
                let ghost prev = cs@.subrange(0, i as int);
                let ghost next = cs@.subrange(0, i + 1);
                assert(next.drop_last() =~= prev);
                if i > start {
                    assert(next[next.len() - 2] == cs@[i - 1]);
                    assert(cs@.subrange(start as int, i + 1) =~= cs@.subrange(
                        start as int,
                        i as int,
                    ).push(cs@[i as int]));
                } else {
                    assert(cs@.subrange(start as int, i + 1) =~= seq![cs@[i as int]]);
                    if start > 0 {
                        assert(next[next.len() - 2] == cs@[start - 1]);
                    }
                }
                i = i + 1;
            }
            let word = text_of(&cs, start, i);
            out.push(word);
            assert(string_views(out@) =~= string_views(before).push(word@));
        }
    }
    assert(cs@.subrange(0, i as int) =~= text@);
    out
}

} // verus!
