//! Finding the X display and the X authority file of the user who runs the
//! application.

use vstd::prelude::*;
use crate::probe::Probe;
use crate::text::{chars_of, is_whitespace, is_ws, string_of_range, views};

verus! {

/// Whether `p` is the position of the first `':'` in `s`.
pub open spec fn is_first_colon(s: Seq<char>, p: int) -> bool {
    &&& 0 <= p < s.len()
    &&& s[p] == ':'
    &&& forall|k: int| 0 <= k < p ==> s[k] != ':'
}

/// The start of the run of non-whitespace characters of `s` that reaches
/// position `p`.
pub open spec fn token_start(s: Seq<char>, p: int) -> int
    decreases p,
{
    if p <= 0 || is_ws(s[p - 1]) {
        p
    } else {
        token_start(s, p - 1)
    }
}

/// The end (exclusive) of the run of non-whitespace characters of `s` that
/// starts at or before position `p`.
pub open spec fn token_end(s: Seq<char>, p: int) -> int
    decreases s.len() - p,
{
    if p >= s.len() || is_ws(s[p]) {
        p
    } else {
        token_end(s, p + 1)
    }
}

/// The display named in the output `s` of a command: the whitespace-delimited
/// word that holds the first `':'`, or none when `s` holds no `':'`.
///
/// This is the first word holding a `':'` on the first line holding a `':'`,
/// since line breaks are whitespace.
pub open spec fn display_in(s: Seq<char>) -> Option<Seq<char>> {
    if exists|p: int| is_first_colon(s, p) {
        let p = choose|p: int| is_first_colon(s, p);
        Some(s.subrange(token_start(s, p), token_end(s, p)))
    } else {
        None
    }
}

proof fn lemma_token_start_props(s: Seq<char>, p: int)
    requires
        0 <= p < s.len(),
    ensures
        0 <= token_start(s, p) <= p,
        forall|k: int| token_start(s, p) <= k < p ==> !is_ws(#[trigger] s[k]),
        token_start(s, p) == 0 || is_ws(s[token_start(s, p) - 1]),
    decreases p,
{
    if !(p <= 0 || is_ws(s[p - 1])) {
        lemma_token_start_props(s, p - 1);
    }
}

proof fn lemma_token_end_props(s: Seq<char>, p: int)
    requires
        0 <= p <= s.len(),
    ensures
        p <= token_end(s, p) <= s.len(),
        forall|k: int| p <= k < token_end(s, p) ==> !is_ws(#[trigger] s[k]),
        token_end(s, p) == s.len() || is_ws(s[token_end(s, p)]),
    decreases s.len() - p,
{
    if !(p >= s.len() || is_ws(s[p])) {
        lemma_token_end_props(s, p + 1);
    }
}

/// A display found in a command's output is a single word that holds a
/// `':'`; none is found exactly when the output holds no `':'`.
pub proof fn lemma_display_is_colon_word(s: Seq<char>)
    ensures
        display_in(s) is None <==> (forall|k: int| 0 <= k < s.len() ==> s[k] != ':'),
        display_in(s) matches Some(d) ==> d.contains(':') && forall|k: int|
            0 <= k < d.len() ==> !is_ws(#[trigger] d[k]),
{
    if exists|p: int| is_first_colon(s, p) {
        let p = choose|p: int| is_first_colon(s, p);
        lemma_token_start_props(s, p);
        lemma_token_end_props(s, p + 1);
        let a = token_start(s, p);
        let b = token_end(s, p);
        assert(!is_ws(s[p]));
        assert(b == token_end(s, p + 1));
        let d = s.subrange(a, b);
        assert(d[p - a] == ':');
        assert forall|k: int| 0 <= k < d.len() implies !is_ws(#[trigger] d[k]) by {
            assert(d[k] == s[a + k]);
        }
    } else {
        assert forall|k: int| 0 <= k < s.len() implies s[k] != ':' by {
            if s[k] == ':' {
                lemma_first_colon_exists(s, k);
            }
        }
    }
}

/// A text with a `':'` at `k` has a first `':'`.
proof fn lemma_first_colon_exists(s: Seq<char>, k: int)
    requires
        0 <= k < s.len(),
        s[k] == ':',
    ensures
        exists|p: int| is_first_colon(s, p),
    decreases k,
{
    if exists|j: int| 0 <= j < k && s[j] == ':' {
        let j = choose|j: int| 0 <= j < k && s[j] == ':';
        lemma_first_colon_exists(s, j);
    } else {
        assert(is_first_colon(s, k));
    }
}

/// The display named in the output of a command (see `display_in`).
pub fn find_display(output: &str) -> (display: Option<String>)
    ensures
        display matches Some(d) ==> display_in(output@) == Some(d@),
        display is None ==> display_in(output@) is None,
{
    let v = chars_of(output);
    let n = v.len();
    let mut p: usize = 0;
    while p < n && v[p] != ':'
        invariant
            n == v.len(),
            v@ == output@,
            p <= n,
            forall|k: int| 0 <= k < p ==> v@[k] != ':',
        decreases n - p,
    {
        p = p + 1;
    }
    if p == n {
        assert(!exists|q: int| is_first_colon(output@, q)) by {
            if exists|q: int| is_first_colon(output@, q) {
                let q = choose|q: int| is_first_colon(output@, q);
                assert(v@[q] != ':');
            }
        }
        return None;
    }
    assert(is_first_colon(output@, p as int));
    let ghost q = choose|q: int| is_first_colon(output@, q);
    assert(q == p) by {
        if q < p {
            assert(v@[q] != ':');
        } else if q > p {
            assert(output@[p as int] != ':');
        }
    }
    let mut a: usize = p;
    while a > 0 && !is_whitespace(v[a - 1])
        invariant
            v@ == output@,
            a <= p < n,
            n == v.len(),
            token_start(output@, p as int) == token_start(output@, a as int),
        decreases a,
    {
        a = a - 1;
    }
    let mut b: usize = p;
    while b < n && !is_whitespace(v[b])
        invariant
            v@ == output@,
            p <= b <= n,
            n == v.len(),
            token_end(output@, p as int) == token_end(output@, b as int),
        decreases n - b,
    {
        b = b + 1;
    }
    Some(string_of_range(&v, a, b))
}

/// The display that a series of command outputs yields: the display named in
/// the last output that names one.
pub open spec fn last_display(outputs: Seq<Seq<char>>) -> Option<Seq<char>>
    decreases outputs.len(),
{
    if outputs.len() == 0 {
        None
    } else {
        match display_in(outputs.last()) {
            Some(d) => Some(d),
            None => last_display(outputs.drop_last()),
        }
    }
}

/// The display named by the outputs of the display probes, in the order the
/// probes ran: each output that names a display replaces the one found
/// before it.
pub fn display_from_outputs(outputs: &Vec<String>) -> (display: Option<String>)
    ensures
        display matches Some(d) ==> last_display(views(outputs@)) == Some(d@),
        display is None ==> last_display(views(outputs@)) is None,
{
    let mut found: Option<String> = None;
    let mut i: usize = 0;
    while i < outputs.len()
        invariant
            i <= outputs.len(),
            found matches Some(d) ==> last_display(views(outputs@).take(i as int)) == Some(d@),
            found is None ==> last_display(views(outputs@).take(i as int)) is None,
        decreases outputs.len() - i,
    {
        let ghost t = views(outputs@).take(i + 1);
        assert(t.drop_last() =~= views(outputs@).take(i as int));
        assert(t.last() == outputs@[i as int]@);
        match find_display(outputs[i].as_str()) {
            Some(d) => {
                found = Some(d);
            },
            None => {},
        }
        i = i + 1;
    }
    assert(views(outputs@).take(i as int) =~= views(outputs@));
    found
}

/// The path of the X authority file in the home directory `home`.
pub fn xauthority_path(home: &str) -> (path: String)
    ensures
        path@ == home@ + "/.Xauthority"@,
{
    let path = String::from_str(home);
    path.concat("/.Xauthority")
}

/// The commands that may name the display of `user`, in the order they run:
/// `loginctl show-user <user> -p Display`, `w -hs <user>`, `who`.
pub fn display_probes(user: &str) -> (probes: Vec<Probe>)
    ensures
        probes.len() == 3,
        probes[0].command@ == "loginctl"@,
        views(probes[0].args@) == seq!["show-user"@, user@, "-p"@, "Display"@],
        probes[1].command@ == "w"@,
        views(probes[1].args@) == seq!["-hs"@, user@],
        probes[2].command@ == "who"@,
        views(probes[2].args@) == Seq::<Seq<char>>::empty(),
{
    let mut a0: Vec<String> = Vec::new();
    a0.push(String::from_str("show-user"));
    a0.push(String::from_str(user));
    a0.push(String::from_str("-p"));
    a0.push(String::from_str("Display"));
    let mut a1: Vec<String> = Vec::new();
    a1.push(String::from_str("-hs"));
    a1.push(String::from_str(user));
    let a2: Vec<String> = Vec::new();
    assert(views(a0@) =~= seq!["show-user"@, user@, "-p"@, "Display"@]);
    assert(views(a1@) =~= seq!["-hs"@, user@]);
    assert(views(a2@) =~= Seq::<Seq<char>>::empty());
    let mut probes: Vec<Probe> = Vec::new();
    probes.push(Probe { command: String::from_str("loginctl"), args: a0 });
    probes.push(Probe { command: String::from_str("w"), args: a1 });
    probes.push(Probe { command: String::from_str("who"), args: a2 });
    probes
}

/// The display named in an output whose first `':'` is at `p` is the whole
/// run of non-whitespace characters around `p`: it starts at the text's start
/// or after a whitespace character, ends at the text's end or before one,
/// and holds no whitespace.
pub proof fn lemma_display_is_word_around_first_colon(s: Seq<char>, p: int)
    requires
        0 <= p < s.len(),
        s[p] == ':',
        forall|k: int| 0 <= k < p ==> s[k] != ':',
    ensures
        exists|a: int, b: int|
            {
                &&& 0 <= a <= p < b <= s.len()
                &&& display_in(s) == Some(s.subrange(a, b))
                &&& forall|k: int| a <= k < b ==> !is_ws(#[trigger] s[k])
                &&& a == 0 || is_ws(s[a - 1])
                &&& b == s.len() || is_ws(s[b])
            },
{
    assert(is_first_colon(s, p));
    let q = choose|q: int| is_first_colon(s, q);
    assert(q == p) by {
        if q < p {
            assert(s[q] != ':');
        } else if q > p {
            assert(s[p] != ':');
        }
    }
    lemma_token_start_props(s, p);
    lemma_token_end_props(s, p + 1);
    assert(!is_ws(s[p]));
    let a = token_start(s, p);
    let b = token_end(s, p);
    assert(b == token_end(s, p + 1));
    assert(forall|k: int| a <= k < b ==> !is_ws(#[trigger] s[k]));
    assert(display_in(s) == Some(s.subrange(a, b)));
}

/// The display that a series of outputs yields is the one named in the last
/// output that names one: if output `k` names `d` and no later output names
/// a display, the series yields `d`.
pub proof fn lemma_last_named_display_wins(outputs: Seq<Seq<char>>, k: int, d: Seq<char>)
    requires
        0 <= k < outputs.len(),
        display_in(outputs[k]) == Some(d),
        forall|j: int| k < j < outputs.len() ==> display_in(#[trigger] outputs[j]) is None,
    ensures
        last_display(outputs) == Some(d),
    decreases outputs.len(),
{
    if k < outputs.len() - 1 {
        let init = outputs.drop_last();
        assert(display_in(outputs[outputs.len() - 1]) is None);
        assert forall|j: int| k < j < init.len() implies display_in(#[trigger] init[j]) is None by {
            assert(init[j] == outputs[j]);
        }
        lemma_last_named_display_wins(init, k, d);
    }
}

/// A series of outputs of which none names a display yields none.
pub proof fn lemma_no_named_display(outputs: Seq<Seq<char>>)
    requires
        forall|j: int| 0 <= j < outputs.len() ==> display_in(#[trigger] outputs[j]) is None,
    ensures
        last_display(outputs) is None,
    decreases outputs.len(),
{
    if outputs.len() > 0 {
        let init = outputs.drop_last();
        assert(display_in(outputs[outputs.len() - 1]) is None);
        assert forall|j: int| 0 <= j < init.len() implies display_in(#[trigger] init[j]) is None by {
            assert(init[j] == outputs[j]);
        }
        lemma_no_named_display(init);
    }
}

} // verus!
