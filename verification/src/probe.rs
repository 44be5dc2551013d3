//! Commands that the application runs to learn about its environment.

use vstd::prelude::*;
use crate::text::views;

verus! {

/// A command to run and its arguments.
pub struct Probe {
    pub command: String,
    pub args: Vec<String>,
}

/// The command and arguments of `p`, as text.
pub open spec fn probe_view(p: Probe) -> (Seq<char>, Seq<Seq<char>>) {
    (p.command@, views(p.args@))
}

/// The commands and arguments of `probes`, as text.
pub open spec fn probe_views(probes: Seq<Probe>) -> Seq<(Seq<char>, Seq<Seq<char>>)> {
    probes.map_values(|p: Probe| probe_view(p))
}

/// A vector holding the given strings, in order.
pub fn strings_of(items: &[&str]) -> (v: Vec<String>)
    ensures
        views(v@) == items@.map_values(|s: &str| s@),
{
    let mut v: Vec<String> = Vec::new();
    let mut i: usize = 0;
    while i < items.len()
        invariant
            i <= items.len(),
            views(v@) == items@.map_values(|s: &str| s@).take(i as int),
        decreases items.len() - i,
    {
        let ghost before = v@;
        v.push(String::from_str(items[i]));
        assert(views(v@) =~= views(before).push(items@[i as int]@));
        assert(items@.map_values(|s: &str| s@).take(i + 1) =~= items@.map_values(
            |s: &str| s@,
        ).take(i as int).push(items@[i as int]@));
        i = i + 1;
    }
    assert(items@.map_values(|s: &str| s@).take(i as int) =~= items@.map_values(|s: &str| s@));
    v
}

} // verus!
