//! Character-level text operations used throughout the library:
//! whitespace classification, trimming, prefix stripping and line splitting,
//! each stated over `Seq<char>` views.

use vstd::prelude::*;

verus! {

/// Unicode `White_Space` property, the set that `char::is_whitespace` tests.
pub open spec fn is_ws(c: char) -> bool {
    let n = c as u32;
    ||| 9 <= n <= 13
    ||| n == 32
    ||| n == 0x85
    ||| n == 0xa0
    ||| n == 0x1680
    ||| 0x2000 <= n <= 0x200a
    ||| n == 0x2028
    ||| n == 0x2029
    ||| n == 0x202f
    ||| n == 0x205f
    ||| n == 0x3000
}

/// Decides `is_ws`.
pub fn is_whitespace(c: char) -> (r: bool)
    ensures
        r == is_ws(c),
{
    let n = c as u32;
    (9 <= n && n <= 13) || n == 32 || n == 0x85 || n == 0xa0 || n == 0x1680 || (0x2000 <= n
        && n <= 0x200a) || n == 0x2028 || n == 0x2029 || n == 0x202f || n == 0x205f || n == 0x3000
}

/// A class of characters that trimming removes.
pub enum CharClass {
    /// Every character with the `White_Space` property.
    Whitespace,
    /// Exactly the given character.
    Exactly(char),
}

/// Whether `c` belongs to `class`.
pub open spec fn in_class(class: CharClass, c: char) -> bool {
    match class {
        CharClass::Whitespace => is_ws(c),
        CharClass::Exactly(t) => c == t,
    }
}

/// `s` with every leading character of `class` removed.
pub open spec fn trim_start_by(s: Seq<char>, class: CharClass) -> Seq<char>
    decreases s.len(),
{
    if s.len() > 0 && in_class(class, s[0]) {
        trim_start_by(s.drop_first(), class)
    } else {
        s
    }
}

/// `s` with every trailing character of `class` removed.
pub open spec fn trim_end_by(s: Seq<char>, class: CharClass) -> Seq<char>
    decreases s.len(),
{
    if s.len() > 0 && in_class(class, s.last()) {
        trim_end_by(s.drop_last(), class)
    } else {
        s
    }
}

/// `s` with leading and trailing characters of `class` removed
/// (`str::trim` for whitespace, `str::trim_matches` for a character).
pub open spec fn trim_by(s: Seq<char>, class: CharClass) -> Seq<char> {
    trim_end_by(trim_start_by(s, class), class)
}

/// `str::trim`.
pub open spec fn trim_spec(s: Seq<char>) -> Seq<char> {
    trim_by(s, CharClass::Whitespace)
}

/// Whether `s` begins with `p`.
pub open spec fn starts_with(s: Seq<char>, p: Seq<char>) -> bool {
    p.len() <= s.len() && s.take(p.len() as int) == p
}

/// `s` with every repeated occurrence of the non-empty prefix `p` removed
/// (`str::trim_start_matches` with a string pattern).
pub open spec fn strip_prefixes(s: Seq<char>, p: Seq<char>) -> Seq<char>
    decreases s.len(),
{
    if p.len() > 0 && starts_with(s, p) {
        strip_prefixes(s.skip(p.len() as int), p)
    } else {
        s
    }
}

/// The pieces of `s` between `'\n'` characters, the empty tail included.
pub open spec fn split_lines(s: Seq<char>) -> Seq<Seq<char>>
    decreases s.len(),
{
    if s.len() == 0 {
        seq![Seq::<char>::empty()]
    } else {
        let init = split_lines(s.drop_last());
        if s.last() == '\n' {
            init.push(Seq::<char>::empty())
        } else {
            init.update(init.len() - 1, init.last().push(s.last()))
        }
    }
}

/// The strings of `lines` joined with `'\n'` between them (`join("\n")`).
pub open spec fn join_lines(lines: Seq<Seq<char>>) -> Seq<char>
    decreases lines.len(),
{
    if lines.len() == 0 {
        Seq::empty()
    } else if lines.len() == 1 {
        lines[0]
    } else {
        join_lines(lines.drop_last()) + seq!['\n'] + lines.last()
    }
}

/// The views of a sequence of strings.
pub open spec fn views(v: Seq<String>) -> Seq<Seq<char>> {
    v.map_values(|s: String| s@)
}

/// Calls `String::push`, which std documents as appending the character to
/// the end of the string: the new text is the old one followed by `c`.
#[verifier::external_body]
pub(crate) fn push_char(s: &mut String, c: char)
    ensures
        final(s)@ == old(s)@.push(c),
{
    s.push(c);
}

/// The characters of `s`, in order.
pub fn chars_of(s: &str) -> (v: Vec<char>)
    ensures
        v@ == s@,
{
    let n = s.unicode_len();
    let mut v: Vec<char> = Vec::new();
    let mut i: usize = 0;
    while i < n
        invariant
            n == s@.len(),
            i <= n,
            v@ == s@.take(i as int),
        decreases n - i,
    {
        let c = s.get_char(i);
        v.push(c);
        i = i + 1;
        assert(v@ =~= s@.take(i as int));
    }
    assert(v@ =~= s@);
    v
}

/// The string made of `v[lo..hi]`.
pub fn string_of_range(v: &Vec<char>, lo: usize, hi: usize) -> (r: String)
    requires
        lo <= hi <= v.len(),
    ensures
        r@ == v@.subrange(lo as int, hi as int),
{
    let mut r = String::new();
    let mut i: usize = lo;
    while i < hi
        invariant
            lo <= i <= hi,
            hi <= v.len(),
            r@ == v@.subrange(lo as int, i as int),
        decreases hi - i,
    {
        push_char(&mut r, v[i]);
        i = i + 1;
        assert(r@ =~= v@.subrange(lo as int, i as int));
    }
    r
}

/// Decides `in_class`.
pub fn char_in_class(class: &CharClass, c: char) -> (r: bool)
    ensures
        r == in_class(*class, c),
{
    match class {
        CharClass::Whitespace => is_whitespace(c),
        CharClass::Exactly(t) => c == *t,
    }
}

proof fn lemma_trim_start_step(s: Seq<char>, i: int, class: CharClass)
    requires
        0 <= i < s.len(),
        in_class(class, s[i]),
    ensures
        trim_start_by(s.subrange(i, s.len() as int), class) == trim_start_by(
            s.subrange(i + 1, s.len() as int),
            class,
        ),
{
    assert(s.subrange(i, s.len() as int).drop_first() =~= s.subrange(i + 1, s.len() as int));
}

proof fn lemma_trim_end_step(s: Seq<char>, lo: int, j: int, class: CharClass)
    requires
        0 <= lo < j <= s.len(),
        in_class(class, s[j - 1]),
    ensures
        trim_end_by(s.subrange(lo, j), class) == trim_end_by(s.subrange(lo, j - 1), class),
{
    assert(s.subrange(lo, j).drop_last() =~= s.subrange(lo, j - 1));
}

/// `v[lo..]` with leading and trailing characters of `class` removed.
pub fn trim_range(v: &Vec<char>, lo: usize, class: &CharClass) -> (r: String)
    requires
        lo <= v.len(),
    ensures
        r@ == trim_by(v@.skip(lo as int), *class),
{
    let ghost s = v@.skip(lo as int);
    let n = v.len();
    let mut i: usize = lo;
    assert(v@.subrange(lo as int, n as int) =~= s);
    while i < n && char_in_class(class, v[i])
        invariant
            n == v.len(),
            lo <= i <= n,
            trim_start_by(s, *class) == trim_start_by(v@.subrange(i as int, n as int), *class),
        decreases n - i,
    {
        proof {
            lemma_trim_start_step(v@, i as int, *class);
        }
        i = i + 1;
    }
    let ghost t = v@.subrange(i as int, n as int);
    assert(trim_start_by(s, *class) == t) by {
        if i == n {
            assert(t.len() == 0);
        }
    }
    let mut j: usize = n;
    assert(v@.subrange(i as int, j as int) =~= t);
    while j > i && char_in_class(class, v[j - 1])
        invariant
            n == v.len(),
            i <= j <= n,
            trim_end_by(t, *class) == trim_end_by(v@.subrange(i as int, j as int), *class),
        decreases j,
    {
        proof {
            lemma_trim_end_step(v@, i as int, j as int, *class);
        }
        j = j - 1;
    }
    assert(trim_end_by(v@.subrange(i as int, j as int), *class) == v@.subrange(i as int, j as int))
        by {
        if j == i {
            assert(v@.subrange(i as int, j as int).len() == 0);
        }
    }
    string_of_range(v, i, j)
}

/// `s` with leading and trailing characters of `class` removed.
pub fn trim_class(s: &str, class: CharClass) -> (r: String)
    ensures
        r@ == trim_by(s@, class),
{
    let v = chars_of(s);
    assert(v@.skip(0) =~= s@);
    trim_range(&v, 0, &class)
}

/// `str::trim`: `s` without leading and trailing whitespace.
pub fn trim(s: &str) -> (r: String)
    ensures
        r@ == trim_spec(s@),
{
    trim_class(s, CharClass::Whitespace)
}

proof fn lemma_trim_start_cut(s: Seq<char>, class: CharClass) -> (a: int)
    ensures
        0 <= a <= s.len(),
        trim_start_by(s, class) == s.subrange(a, s.len() as int),
        forall|k: int| 0 <= k < a ==> in_class(class, #[trigger] s[k]),
        a < s.len() ==> !in_class(class, s[a]),
    decreases s.len(),
{
    if s.len() > 0 && in_class(class, s[0]) {
        let a0 = lemma_trim_start_cut(s.drop_first(), class);
        assert(s.drop_first().subrange(a0, s.len() - 1) =~= s.subrange(a0 + 1, s.len() as int));
        assert forall|k: int| 0 <= k < a0 + 1 implies in_class(class, #[trigger] s[k]) by {
            if k > 0 {
                assert(s[k] == s.drop_first()[k - 1]);
            }
        }
        a0 + 1
    } else {
        assert(s.subrange(0, s.len() as int) =~= s);
        0
    }
}

proof fn lemma_trim_end_cut(s: Seq<char>, class: CharClass) -> (b: int)
    ensures
        0 <= b <= s.len(),
        trim_end_by(s, class) == s.subrange(0, b),
        forall|k: int| b <= k < s.len() ==> in_class(class, #[trigger] s[k]),
        b > 0 ==> !in_class(class, s[b - 1]),
    decreases s.len(),
{
    if s.len() > 0 && in_class(class, s.last()) {
        let b0 = lemma_trim_end_cut(s.drop_last(), class);
        assert(s.drop_last().subrange(0, b0) =~= s.subrange(0, b0));
        assert forall|k: int| b0 <= k < s.len() implies in_class(class, #[trigger] s[k]) by {
            if k < s.len() - 1 {
                assert(s[k] == s.drop_last()[k]);
            }
        }
        b0
    } else {
        assert(s.subrange(0, s.len() as int) =~= s);
        s.len() as int
    }
}

/// Trimming removes exactly the characters of the class at both ends: the
/// result is a piece `s[a..b]` of `s`, every character before `a` and from
/// `b` on is of the class, and a non-empty result begins and ends with a
/// character that is not.
pub proof fn lemma_trim_removes_class_at_ends(s: Seq<char>, class: CharClass)
    ensures
        exists|a: int, b: int|
            {
                &&& 0 <= a <= b <= s.len()
                &&& trim_by(s, class) == s.subrange(a, b)
                &&& forall|k: int| 0 <= k < a ==> in_class(class, #[trigger] s[k])
                &&& forall|k: int| b <= k < s.len() ==> in_class(class, #[trigger] s[k])
                &&& a < b ==> !in_class(class, s[a]) && !in_class(class, s[b - 1])
            },
{
    let a = lemma_trim_start_cut(s, class);
    let t = s.subrange(a, s.len() as int);
    let b0 = lemma_trim_end_cut(t, class);
    let b = a + b0;
    assert(t.subrange(0, b0) =~= s.subrange(a, b));
    assert forall|k: int| b <= k < s.len() implies in_class(class, #[trigger] s[k]) by {
        assert(s[k] == t[k - a]);
    }
    if a < b {
        assert(s[a] == t[0]);
        assert(s[b - 1] == t[b0 - 1]);
    }
}

/// Stripping `p` from the front of `p + s` leaves what stripping it from `s`
/// leaves, and a text that does not start with `p` is left as it is.
pub proof fn lemma_strip_prefixes_laws(p: Seq<char>, s: Seq<char>)
    requires
        p.len() > 0,
    ensures
        strip_prefixes(p + s, p) == strip_prefixes(s, p),
        !starts_with(s, p) ==> strip_prefixes(s, p) == s,
{
    let ps = p + s;
    assert(ps.take(p.len() as int) =~= p);
    assert(ps.skip(p.len() as int) =~= s);
}

/// Whether `s` holds no `'\n'`.
pub open spec fn single_line(s: Seq<char>) -> bool {
    forall|k: int| 0 <= k < s.len() ==> s[k] != '\n'
}

/// A text without `'\n'` is one line.
pub proof fn lemma_split_single_line(s: Seq<char>)
    requires
        single_line(s),
    ensures
        split_lines(s) == seq![s],
    decreases s.len(),
{
    if s.len() > 0 {
        lemma_split_single_line(s.drop_last());
        assert(s.drop_last().push(s.last()) =~= s);
        assert(split_lines(s) =~= seq![s]);
    } else {
        assert(s =~= Seq::<char>::empty());
    }
}

/// Splitting `a`, a newline and a line `b` gives the lines of `a` and then `b`.
pub proof fn lemma_split_newline_then_line(a: Seq<char>, b: Seq<char>)
    requires
        single_line(b),
    ensures
        split_lines(a + seq!['\n'] + b) == split_lines(a).push(b),
    decreases b.len(),
{
    let s = a + seq!['\n'] + b;
    if b.len() == 0 {
        assert(s.drop_last() =~= a);
        assert(b =~= Seq::<char>::empty());
    } else {
        let b0 = b.drop_last();
        lemma_split_newline_then_line(a, b0);
        assert(s.drop_last() =~= a + seq!['\n'] + b0);
        assert(s.last() == b.last());
        assert(b0.push(b.last()) =~= b);
        assert(split_lines(s) =~= split_lines(a).push(b));
    }
}

/// Joining lines that hold no newline with `'\n'` and splitting the result
/// at `'\n'` gives the lines back.
pub proof fn lemma_split_join(lines: Seq<Seq<char>>)
    requires
        lines.len() > 0,
        forall|i: int| 0 <= i < lines.len() ==> single_line(#[trigger] lines[i]),
    ensures
        split_lines(join_lines(lines)) == lines,
    decreases lines.len(),
{
    if lines.len() == 1 {
        lemma_split_single_line(lines[0]);
        assert(lines =~= seq![lines[0]]);
    } else {
        let init = lines.drop_last();
        assert forall|i: int| 0 <= i < init.len() implies single_line(#[trigger] init[i]) by {
            assert(init[i] == lines[i]);
        }
        lemma_split_join(init);
        assert(single_line(lines[lines.len() - 1]));
        lemma_split_newline_then_line(join_lines(init), lines.last());
        assert(init.push(lines.last()) =~= lines);
    }
}

/// Joining at least two lines is joining all but the last, a newline, then
/// the last.
proof fn lemma_join_unfold(lines: Seq<Seq<char>>)
    requires
        lines.len() >= 2,
    ensures
        join_lines(lines) == join_lines(lines.drop_last()) + seq!['\n'] + lines.last(),
{
}

/// Splitting a text at `'\n'` gives pieces that hold no `'\n'` and that,
/// joined again with `'\n'`, give the text back.
pub proof fn lemma_split_pieces_rejoin(s: Seq<char>)
    ensures
        split_lines(s).len() > 0,
        forall|i: int| 0 <= i < split_lines(s).len() ==> single_line(#[trigger] split_lines(s)[i]),
        join_lines(split_lines(s)) == s,
    decreases s.len(),
{
    if s.len() > 0 {
        let init_text = s.drop_last();
        lemma_split_pieces_rejoin(init_text);
        let init = split_lines(init_text);
        let c = s.last();
        assert(init_text.push(c) =~= s);
        if c == '\n' {
            let r = init.push(Seq::<char>::empty());
            assert(r.drop_last() =~= init);
            lemma_join_unfold(r);
            assert(join_lines(r) =~= s);
            assert forall|i: int| 0 <= i < r.len() implies single_line(#[trigger] r[i]) by {
                if i < init.len() {
                    assert(r[i] == init[i]);
                }
            }
        } else {
            let n = init.len();
            let r = init.update(n - 1, init.last().push(c));
            assert forall|i: int| 0 <= i < r.len() implies single_line(#[trigger] r[i]) by {
                if i < n - 1 {
                    assert(r[i] == init[i]);
                } else {
                    assert(single_line(init[n - 1]));
                    assert forall|k: int| 0 <= k < r[i].len() implies r[i][k] != '\n' by {
                        if k < init[n - 1].len() {
                            assert(r[i][k] == init[n - 1][k]);
                        }
                    }
                }
            }
            if n == 1 {
                assert(join_lines(r) == r[0]);
                assert(join_lines(init) == init[0]);
                assert(join_lines(r) =~= s);
            } else {
                lemma_join_unfold(r);
                lemma_join_unfold(init);
                assert(r.drop_last() =~= init.drop_last());
                assert(join_lines(r) =~= s);
            }
        }
    } else {
        assert(split_lines(s) =~= seq![Seq::<char>::empty()]);
    }
}

/// A text with no whitespace is its own trim.
pub proof fn lemma_trim_no_whitespace(s: Seq<char>)
    requires
        forall|k: int| 0 <= k < s.len() ==> !is_ws(#[trigger] s[k]),
    ensures
        trim_spec(s) == s,
{
    assert(trim_start_by(s, CharClass::Whitespace) == s);
    if s.len() > 0 {
        assert(!is_ws(s[s.len() - 1]));
    }
}

/// The pieces of `s` between `'\n'` characters.
pub fn lines_of(s: &str) -> (lines: Vec<String>)
    ensures
        views(lines@) == split_lines(s@),
{
    let v = chars_of(s);
    let mut lines: Vec<String> = Vec::new();
    let mut cur = String::new();
    let mut k: usize = 0;
    assert(s@.take(0) =~= Seq::<char>::empty());
    assert(views(lines@).push(cur@) =~= seq![Seq::<char>::empty()]);
    while k < v.len()
        invariant
            v@ == s@,
            k <= v.len(),
            views(lines@).push(cur@) == split_lines(s@.take(k as int)),
        decreases v.len() - k,
    {
        let c = v[k];
        let ghost prev = split_lines(s@.take(k as int));
        assert(s@.take(k + 1).drop_last() =~= s@.take(k as int));
        assert(s@.take(k + 1).last() == c);
        if c == '\n' {
            let ghost before = lines@;
            lines.push(cur);
            assert(views(lines@) =~= views(before).push(prev.last()));
            cur = String::new();
            assert(views(lines@).push(cur@) =~= prev.push(Seq::<char>::empty()));
        } else {
            let ghost before = cur@;
            push_char(&mut cur, c);
            assert(views(lines@).push(cur@) =~= prev.update(prev.len() - 1, prev.last().push(c)));
        }
        k = k + 1;
    }
    assert(s@.take(k as int) =~= s@);
    let ghost before = lines@;
    let ghost last = cur@;
    lines.push(cur);
    assert(views(lines@) =~= views(before).push(last));
    lines
}

/// The strings of `lines` joined with `'\n'` between them.
pub fn join_with_newlines(lines: &Vec<String>) -> (r: String)
    ensures
        r@ == join_lines(views(lines@)),
{
    let mut r = String::new();
    let mut i: usize = 0;
    while i < lines.len()
        invariant
            i <= lines.len(),
            r@ == join_lines(views(lines@).take(i as int)),
        decreases lines.len() - i,
    {
        let ghost t = views(lines@).take(i + 1);
        assert(t.drop_last() =~= views(lines@).take(i as int));
        assert(t.last() == lines@[i as int]@);
        if i > 0 {
            push_char(&mut r, '\n');
        }
        r.append(lines[i].as_str());
        i = i + 1;
        assert(r@ =~= join_lines(t));
    }
    assert(views(lines@).take(i as int) =~= views(lines@));
    r
}

} // verus!
