use vstd::prelude::*;

verus! {

/// Appends one character to a string.
///
/// Relies on `String::push`: appends the given character to the end of the
/// string.
#[verifier::external_body]
pub(crate) fn push_char(s: &mut String, c: char)
    ensures
        final(s)@ == old(s)@.push(c),
{
    s.push(c)
}

/// Collects the characters of a string slice into a vector, in order.
pub fn chars_of(s: &str) -> (v: Vec<char>)
    ensures
        v@ == s@,
{
    let mut v: Vec<char> = Vec::new();
    for c in it: s.chars()
        invariant
            it.seq() == s@,
            v@ == it.seq().subrange(0, it.index() as int),
    {
        v.push(c);
    }
    proof {
        assert(v@ =~= s@);
    }
    v
}

/// Builds a string whose characters are exactly those of the given vector.
pub fn string_of(v: &Vec<char>) -> (s: String)
    ensures
        s@ == v@,
{
    let mut s = String::new();
    let mut i: usize = 0;
    while i < v.len()
        invariant
            i <= v.len(),
            s@ == v@.subrange(0, i as int),
        decreases v.len() - i,
    {
        push_char(&mut s, v[i]);
        proof {
            assert(v@.subrange(0, i as int).push(v@[i as int]) =~= v@.subrange(0, i + 1));
        }
        i = i + 1;
    }
    proof {
        assert(s@ =~= v@);
    }
    s
}

/// The Unicode `White_Space` characters, the ones `str::trim` removes.
pub open spec fn is_ws(c: char) -> bool {
    c == '\u{0009}' || c == '\u{000A}' || c == '\u{000B}' || c == '\u{000C}' || c == '\u{000D}'
        || c == '\u{0020}' || c == '\u{0085}' || c == '\u{00A0}' || c == '\u{1680}'
        || c == '\u{2000}' || c == '\u{2001}' || c == '\u{2002}' || c == '\u{2003}'
        || c == '\u{2004}' || c == '\u{2005}' || c == '\u{2006}' || c == '\u{2007}'
        || c == '\u{2008}' || c == '\u{2009}' || c == '\u{200A}' || c == '\u{2028}'
        || c == '\u{2029}' || c == '\u{202F}' || c == '\u{205F}' || c == '\u{3000}'
}

/// Decides whitespace exactly as `is_ws` describes it.
pub fn is_whitespace_char(c: char) -> (r: bool)
    ensures
        r == is_ws(c),
{
    c == '\u{0009}' || c == '\u{000A}' || c == '\u{000B}' || c == '\u{000C}' || c == '\u{000D}'
        || c == '\u{0020}' || c == '\u{0085}' || c == '\u{00A0}' || c == '\u{1680}'
        || c == '\u{2000}' || c == '\u{2001}' || c == '\u{2002}' || c == '\u{2003}'
        || c == '\u{2004}' || c == '\u{2005}' || c == '\u{2006}' || c == '\u{2007}'
        || c == '\u{2008}' || c == '\u{2009}' || c == '\u{200A}' || c == '\u{2028}'
        || c == '\u{2029}' || c == '\u{202F}' || c == '\u{205F}' || c == '\u{3000}'
}

/// The sequence without its trailing whitespace.
pub open spec fn trim_end(s: Seq<char>) -> Seq<char>
    decreases s.len(),
{
    if s.len() > 0 && is_ws(s.last()) {
        trim_end(s.drop_last())
    } else {
        s
    }
}

/// The sequence without its leading whitespace.
pub open spec fn trim_start(s: Seq<char>) -> Seq<char>
    decreases s.len(),
{
    if s.len() > 0 && is_ws(s[0]) {
        trim_start(s.drop_first())
    } else {
        s
    }
}

/// The sequence without leading and trailing whitespace, as `str::trim`
/// yields it.
pub open spec fn trimmed(s: Seq<char>) -> Seq<char> {
    trim_start(trim_end(s))
}

/// Removes leading and trailing whitespace from a character vector.
pub fn trim_chars(v: &Vec<char>) -> (r: Vec<char>)
    ensures
        r@ == trimmed(v@),
{
    let mut b: usize = v.len();
    proof {
        assert(v@.subrange(0, v@.len() as int) =~= v@);
    }
    while b > 0 && is_whitespace_char(v[b - 1])
        invariant
            b <= v.len(),
            trim_end(v@.subrange(0, b as int)) == trim_end(v@),
        decreases b,
    {
        proof {
            assert(v@.subrange(0, b as int).drop_last() =~= v@.subrange(0, b - 1));
        }
        b = b - 1;
    }
    proof {
        assert(trim_end(v@) == v@.subrange(0, b as int));
    }
    let mut a: usize = 0;
    while a < b && is_whitespace_char(v[a])
        invariant
            a <= b <= v.len(),
            trim_end(v@) == v@.subrange(0, b as int),
            trim_start(v@.subrange(a as int, b as int)) == trim_start(v@.subrange(0, b as int)),
        decreases b - a,
    {
        proof {
            assert(v@.subrange(a as int, b as int).drop_first() =~= v@.subrange(a + 1, b as int));
        }
        a = a + 1;
    }
    let mut r: Vec<char> = Vec::new();
    let mut i: usize = a;
    while i < b
        invariant
            a <= i <= b <= v.len(),
            r@ == v@.subrange(a as int, i as int),
        decreases b - i,
    {
        proof {
            assert(v@.subrange(a as int, i as int).push(v@[i as int]) =~= v@.subrange(
                a as int,
                i + 1,
            ));
        }
        r.push(v[i]);
        i = i + 1;
    }
    proof {
        assert(r@ =~= v@.subrange(a as int, b as int));
        assert(trim_start(v@.subrange(a as int, b as int)) == v@.subrange(a as int, b as int));
    }
    r
}

/// Returns the string without leading and trailing whitespace.
pub fn trim_of(s: &str) -> (r: String)
    ensures
        r@ == trimmed(s@),
{
    let v = chars_of(s);
    let t = trim_chars(&v);
    string_of(&t)
}

/// The character sequences of a list of strings, in order.
pub open spec fn str_views(ss: Seq<String>) -> Seq<Seq<char>> {
    Seq::new(ss.len(), |i: int| ss[i]@)
}

/// `str_views` and the deep view of a string vector agree.
pub proof fn lemma_deep_view_is_str_views(v: &Vec<String>)
    ensures
        v.deep_view() == str_views(v@),
{
    assert(v.deep_view() =~= str_views(v@));
}

/// Appending a string appends its characters to the views.
pub proof fn lemma_str_views_push(ss: Seq<String>, x: String)
    ensures
        str_views(ss.push(x)) == str_views(ss).push(x@),
{
    assert(str_views(ss.push(x)) =~= str_views(ss).push(x@));
}

/// The pieces of a sequence cut at every `\n`, the cuts themselves removed.
/// There is always at least one piece; a `\n` ends the piece before it and
/// opens a new, initially empty one.
pub open spec fn segments(s: Seq<char>) -> Seq<Seq<char>>
    decreases s.len(),
{
    if s.len() == 0 {
        seq![Seq::empty()]
    } else if s.last() == '\n' {
        segments(s.drop_last()).push(Seq::empty())
    } else {
        let r = segments(s.drop_last());
        r.update(r.len() - 1, r.last().push(s.last()))
    }
}

/// A piece without its trailing `\r`, if it has one.
pub open spec fn strip_cr(l: Seq<char>) -> Seq<char> {
    if l.len() > 0 && l.last() == '\r' {
        l.drop_last()
    } else {
        l
    }
}

/// The lines of a string, exactly as `str::lines` yields them: pieces cut at
/// `\n`, a final empty piece dropped, and a trailing `\r` removed from each
/// piece a `\n` ended — so `\r\n` is one line ending, while a bare `\r` at
/// the very end of the string stays on its unterminated line.
pub open spec fn lines_spec(s: Seq<char>) -> Seq<Seq<char>> {
    let g = segments(s);
    if g.last().len() == 0 {
        g.drop_last().map_values(|l: Seq<char>| strip_cr(l))
    } else {
        g.drop_last().map_values(|l: Seq<char>| strip_cr(l)).push(g.last())
    }
}

/// Builds a string from the first `k` characters of a vector.
pub fn string_of_prefix(v: &Vec<char>, k: usize) -> (s: String)
    requires
        k <= v.len(),
    ensures
        s@ == v@.subrange(0, k as int),
{
    let mut s = String::new();
    let mut i: usize = 0;
    while i < k
        invariant
            i <= k <= v.len(),
            s@ == v@.subrange(0, i as int),
        decreases k - i,
    {
        push_char(&mut s, v[i]);
        proof {
            assert(v@.subrange(0, i as int).push(v@[i as int]) =~= v@.subrange(0, i + 1));
        }
        i = i + 1;
    }
    s
}

/// Builds a string from a piece with its trailing `\r`, if any, removed.
fn string_of_stripped(v: &Vec<char>) -> (s: String)
    ensures
        s@ == strip_cr(v@),
{
    let n = v.len();
    if n > 0 && v[n - 1] == '\r' {
        proof {
            assert(v@.subrange(0, n - 1) =~= v@.drop_last());
        }
        string_of_prefix(v, n - 1)
    } else {
        proof {
            assert(v@.subrange(0, n as int) =~= v@);
        }
        string_of_prefix(v, n)
    }
}

/// Splits a string into its lines, as `str::lines` does.
pub fn split_lines(s: &str) -> (r: Vec<String>)
    ensures
        r.deep_view() == lines_spec(s@),
{
    let cs = chars_of(s);
    let mut done: Vec<String> = Vec::new();
    let mut cur: Vec<char> = Vec::new();
    let ghost mut raw: Seq<Seq<char>> = Seq::empty();
    let mut i: usize = 0;
    proof {
        assert(cs@.subrange(0, 0) =~= Seq::<char>::empty());
        assert(segments(cs@.subrange(0, 0)) =~= raw.push(cur@));
        assert(str_views(done@) =~= raw.map_values(|l: Seq<char>| strip_cr(l)));
    }
    while i < cs.len()
        invariant
            i <= cs.len(),
            cs@ == s@,
            segments(cs@.subrange(0, i as int)) == raw.push(cur@),
            str_views(done@) == raw.map_values(|l: Seq<char>| strip_cr(l)),
        decreases cs.len() - i,
    {
        let c = cs[i];
        proof {
            assert(cs@.subrange(0, i + 1).drop_last() =~= cs@.subrange(0, i as int));
            assert(cs@.subrange(0, i + 1).last() == cs@[i as int]);
        }
        if c == '\n' {
            let line = string_of_stripped(&cur);
            proof {
                lemma_str_views_push(done@, line);
            }
            done.push(line);
            proof {
                raw = raw.push(cur@);
                assert(segments(cs@.subrange(0, i + 1)) =~= raw.push(Seq::empty()));
                assert(str_views(done@) =~= raw.map_values(|l: Seq<char>| strip_cr(l)));
            }
            cur = Vec::new();
        } else {
            proof {
                let g = segments(cs@.subrange(0, i as int));
                assert(g.last() == cur@);
                assert(segments(cs@.subrange(0, i + 1)) =~= raw.push(cur@.push(cs@[i as int])));
            }
            cur.push(c);
        }
        i = i + 1;
    }
    proof {
        assert(cs@.subrange(0, cs@.len() as int) =~= cs@);
    }
    if cur.len() == 0 {
        proof {
            let g = segments(s@);
            assert(g.last().len() == 0);
            assert(g.drop_last() =~= raw);
            lemma_deep_view_is_str_views(&done);
        }
        done
    } else {
        let line = string_of(&cur);
        proof {
            lemma_str_views_push(done@, line);
        }
        done.push(line);
        proof {
            let g = segments(s@);
            assert(g.last() == cur@);
            assert(g.drop_last() =~= raw);
            lemma_deep_view_is_str_views(&done);
        }
        done
    }
}

/// The sequences of a list that are not empty, in their order.
pub open spec fn keep_nonblank(ls: Seq<Seq<char>>) -> Seq<Seq<char>>
    decreases ls.len(),
{
    if ls.len() == 0 {
        ls
    } else {
        let r = keep_nonblank(ls.drop_last());
        if ls.last().len() > 0 {
            r.push(ls.last())
        } else {
            r
        }
    }
}

/// Splits a string into lines and keeps only the non-empty ones.
pub fn nonempty_lines(s: &str) -> (r: Vec<String>)
    ensures
        r.deep_view() == keep_nonblank(lines_spec(s@)),
{
    let lines = split_lines(s);
    proof {
        lemma_deep_view_is_str_views(&lines);
    }
    let mut r: Vec<String> = Vec::new();
    let mut i: usize = 0;
    proof {
        assert(str_views(lines@).subrange(0, 0) =~= Seq::<Seq<char>>::empty());
        assert(str_views(r@) =~= keep_nonblank(str_views(lines@).subrange(0, 0)));
    }
    while i < lines.len()
        invariant
            i <= lines.len(),
            str_views(lines@) == lines_spec(s@),
            str_views(r@) == keep_nonblank(str_views(lines@).subrange(0, i as int)),
        decreases lines.len() - i,
    {
        proof {
            assert(str_views(lines@).subrange(0, i + 1).drop_last() =~= str_views(
                lines@,
            ).subrange(0, i as int));
            assert(str_views(lines@).subrange(0, i + 1).last() == lines@[i as int]@);
        }
        if !lines[i].as_str().is_empty() {
            let line = lines[i].clone();
            proof {
                lemma_str_views_push(r@, line);
            }
            r.push(line);
        }
        i = i + 1;
    }
    proof {
        assert(str_views(lines@).subrange(0, lines@.len() as int) =~= str_views(lines@));
        lemma_deep_view_is_str_views(&r);
    }
    r
}

/// The part of a path after its last `/`; the whole path when it holds no
/// `/`; empty when the path ends in `/` or is itself empty.
pub open spec fn last_component(p: Seq<char>) -> Seq<char>
    decreases p.len(),
{
    if p.len() == 0 {
        Seq::empty()
    } else if p.last() == '/' {
        Seq::empty()
    } else {
        last_component(p.drop_last()).push(p.last())
    }
}

/// The final path component as `Path::file_name` reads it: trailing `/`
/// separators are ignored, a bare `.` component is skipped, and there is no
/// file name when nothing remains or the last real component is `..`.
pub open spec fn file_name_of(p: Seq<char>) -> Option<Seq<char>>
    decreases p.len(),
{
    if p.len() == 0 {
        None
    } else if p.last() == '/' {
        file_name_of(p.drop_last())
    } else {
        let c = last_component(p);
        if c == seq!['.'] {
            file_name_of(p.drop_last())
        } else if c == seq!['.', '.'] {
            None
        } else {
            Some(c)
        }
    }
}

/// In a sequence without `/`, the last component is the whole sequence.
proof fn lemma_last_component_no_slash(q: Seq<char>)
    requires
        forall|m: int| 0 <= m < q.len() ==> q[m] != '/',
    ensures
        last_component(q) == q,
    decreases q.len(),
{
    if q.len() > 0 {
        lemma_last_component_no_slash(q.drop_last());
        assert(last_component(q) =~= q);
    } else {
        assert(last_component(q) =~= q);
    }
}

/// The last component is whatever follows the last `/`.
proof fn lemma_last_component_after_slash(q: Seq<char>, k: int)
    requires
        1 <= k <= q.len(),
        q[k - 1] == '/',
        forall|m: int| k <= m < q.len() ==> q[m] != '/',
    ensures
        last_component(q) == q.subrange(k, q.len() as int),
    decreases q.len() - k,
{
    if k == q.len() {
        assert(last_component(q) =~= q.subrange(k, q.len() as int));
    } else {
        lemma_last_component_after_slash(q.drop_last(), k);
        assert(q.drop_last().subrange(k, q.len() - 1) =~= q.subrange(k, q.len() - 1));
        assert(last_component(q) =~= q.subrange(k, q.len() as int));
    }
}

/// Extracts the final path component, as `Path::file_name` does.
pub fn path_file_name(path: &str) -> (r: Option<String>)
    ensures
        r is Some <==> file_name_of(path@) is Some,
        r matches Some(s) ==> Some(s@) == file_name_of(path@),
{
    let cs = chars_of(path);
    let mut j: usize = cs.len();
    proof {
        assert(cs@.subrange(0, cs@.len() as int) =~= cs@);
    }
    loop
        invariant
            j <= cs.len(),
            cs@ == path@,
            file_name_of(cs@.subrange(0, j as int)) == file_name_of(path@),
        decreases j,
    {
        let ghost j0: usize = j;
        while j > 0 && cs[j - 1] == '/'
            invariant
                j <= j0 <= cs.len(),
                cs@ == path@,
                file_name_of(cs@.subrange(0, j as int)) == file_name_of(path@),
            decreases j,
        {
            proof {
                assert(cs@.subrange(0, j as int).drop_last() =~= cs@.subrange(0, j - 1));
                assert(cs@.subrange(0, j as int).last() == cs@[j - 1]);
            }
            j = j - 1;
        }
        if j == 0 {
            return None;
        }
        let mut i: usize = j;
        while i > 0 && cs[i - 1] != '/'
            invariant
                i <= j <= cs.len(),
                forall|m: int| i <= m < j ==> cs@[m] != '/',
            decreases i,
        {
            i = i - 1;
        }
        proof {
            let q = cs@.subrange(0, j as int);
            assert(q.last() == cs@[j - 1]);
            if i == 0 {
                lemma_last_component_no_slash(q);
                assert(last_component(q) =~= cs@.subrange(i as int, j as int));
            } else {
                lemma_last_component_after_slash(q, i as int);
                assert(q.subrange(i as int, j as int) =~= cs@.subrange(i as int, j as int));
            }
        }
        if j - i == 1 && cs[i] == '.' {
            proof {
                assert(cs@.subrange(i as int, j as int) =~= seq!['.']);
                assert(cs@.subrange(0, j as int).drop_last() =~= cs@.subrange(0, j - 1));
            }
            j = j - 1;
        } else if j - i == 2 && cs[i] == '.' && cs[i + 1] == '.' {
            proof {
                assert(cs@.subrange(i as int, j as int) =~= seq!['.', '.']);
            }
            return None;
        } else {
            proof {
                let c = cs@.subrange(i as int, j as int);
                assert(c != seq!['.']) by {
                    if c == seq!['.'] {
                        assert(c.len() == 1 && c[0] == '.');
                    }
                }
                assert(c != seq!['.', '.']) by {
                    if c == seq!['.', '.'] {
                        assert(c.len() == 2 && c[0] == '.' && c[1] == '.');
                    }
                }
            }
            let mut out: Vec<char> = Vec::new();
            let mut m: usize = i;
            proof {
                assert(out@ =~= cs@.subrange(i as int, i as int));
            }
            while m < j
                invariant
                    i <= m <= j <= cs.len(),
                    out@ == cs@.subrange(i as int, m as int),
                decreases j - m,
            {
                proof {
                    assert(cs@.subrange(i as int, m as int).push(cs@[m as int]) =~= cs@.subrange(
                        i as int,
                        m + 1,
                    ));
                }
                out.push(cs[m]);
                m = m + 1;
            }
            return Some(string_of(&out));
        }
    }
}

/// The sequence with every `.` replaced by `_`.
pub open spec fn underscored(s: Seq<char>) -> Seq<char> {
    s.map_values(|c: char| if c == '.' { '_' } else { c })
}

} // verus!
