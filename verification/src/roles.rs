//! The security roles a user can choose, the list of chosen roles and its
//! configuration file format (one role identifier per line).

use vstd::prelude::*;
use crate::text::{
    is_ws, join_lines, join_with_newlines, lemma_split_join, lemma_trim_no_whitespace, lines_of,
    single_line, split_lines, trim, trim_spec, views,
};

verus! {

broadcast use vstd::seq_lib::group_seq_properties;

/// The identifiers of the known roles, in display order.
pub open spec fn role_ids() -> Seq<Seq<char>> {
    seq![
        "blue"@,
        "hunter"@,
        "cracker"@,
        "dos"@,
        "student"@,
        "forensic"@,
        "malware"@,
        "mobile"@,
        "network"@,
        "osint"@,
        "red"@,
        "web"@,
    ]
}

/// The labels shown for the known roles, in the order of `role_ids`.
pub open spec fn role_labels() -> Seq<Seq<char>> {
    seq![
        "💙 Blue Teamer 💙"@,
        "🐞 Bug Bounty Hunter 🐞"@,
        "🍘 Cracker Specialist 🍘"@,
        "💀 DoS Tester 💀"@,
        "🎓 Enthusiast Student 🎓"@,
        "🔍 Forensic Analyst 🔍"@,
        "🦠 Malware Analyst 🦠"@,
        "📱 Mobile Analyst 📱"@,
        "🌐 Network Analyst 🌐"@,
        "🕵️ OSINT Specialist 🕵️"@,
        "❤️ Red Teamer ❤️"@,
        "🕸️ Web Pentester 🕸️"@,
    ]
}

/// Whether `r` is the identifier of a known role.
pub open spec fn is_role_id(r: Seq<char>) -> bool {
    role_ids().contains(r)
}

/// `is_role_id` as a predicate value.
pub open spec fn role_id_pred() -> spec_fn(Seq<char>) -> bool {
    |x: Seq<char>| is_role_id(x)
}

/// The predicate "differs from `r`".
pub open spec fn differs_from(r: Seq<char>) -> spec_fn(Seq<char>) -> bool {
    |x: Seq<char>| x != r
}

/// The roles of `roles` that are known, in their order.
pub open spec fn validated(roles: Seq<Seq<char>>) -> Seq<Seq<char>> {
    roles.filter(role_id_pred())
}

/// The role list after toggling `role`: every occurrence removed if it is
/// present, otherwise appended at the end.
pub open spec fn toggled(roles: Seq<Seq<char>>, role: Seq<char>) -> Seq<Seq<char>> {
    if roles.contains(role) {
        roles.filter(differs_from(role))
    } else {
        roles.push(role)
    }
}

/// The (label, identifier) pairs of the known roles, in display order.
pub fn role_items() -> (items: Vec<(String, String)>)
    ensures
        items.len() == 12,
        items[0].0@ == "💙 Blue Teamer 💙"@ && items[0].1@ == "blue"@,
        items[1].0@ == "🐞 Bug Bounty Hunter 🐞"@ && items[1].1@ == "hunter"@,
        items[2].0@ == "🍘 Cracker Specialist 🍘"@ && items[2].1@ == "cracker"@,
        items[3].0@ == "💀 DoS Tester 💀"@ && items[3].1@ == "dos"@,
        items[4].0@ == "🎓 Enthusiast Student 🎓"@ && items[4].1@ == "student"@,
        items[5].0@ == "🔍 Forensic Analyst 🔍"@ && items[5].1@ == "forensic"@,
        items[6].0@ == "🦠 Malware Analyst 🦠"@ && items[6].1@ == "malware"@,
        items[7].0@ == "📱 Mobile Analyst 📱"@ && items[7].1@ == "mobile"@,
        items[8].0@ == "🌐 Network Analyst 🌐"@ && items[8].1@ == "network"@,
        items[9].0@ == "🕵️ OSINT Specialist 🕵️"@ && items[9].1@ == "osint"@,
        items[10].0@ == "❤️ Red Teamer ❤️"@ && items[10].1@ == "red"@,
        items[11].0@ == "🕸️ Web Pentester 🕸️"@ && items[11].1@ == "web"@,
        items.len() == role_ids().len(),
        forall|i: int|
            0 <= i < items.len() ==> (#[trigger] items[i]).0@ == role_labels()[i] && items[i].1@
                == role_ids()[i],
{
    let mut items: Vec<(String, String)> = Vec::new();
    items.push((String::from_str("💙 Blue Teamer 💙"), String::from_str("blue")));
    items.push((String::from_str("🐞 Bug Bounty Hunter 🐞"), String::from_str("hunter")));
    items.push((String::from_str("🍘 Cracker Specialist 🍘"), String::from_str("cracker")));
    items.push((String::from_str("💀 DoS Tester 💀"), String::from_str("dos")));
    items.push((String::from_str("🎓 Enthusiast Student 🎓"), String::from_str("student")));
    items.push((String::from_str("🔍 Forensic Analyst 🔍"), String::from_str("forensic")));
    items.push((String::from_str("🦠 Malware Analyst 🦠"), String::from_str("malware")));
    items.push((String::from_str("📱 Mobile Analyst 📱"), String::from_str("mobile")));
    items.push((String::from_str("🌐 Network Analyst 🌐"), String::from_str("network")));
    items.push((String::from_str("🕵️ OSINT Specialist 🕵️"), String::from_str("osint")));
    items.push((String::from_str("❤️ Red Teamer ❤️"), String::from_str("red")));
    items.push((String::from_str("🕸️ Web Pentester 🕸️"), String::from_str("web")));
    items
}

/// The identifiers of the known roles, in display order.
pub fn role_id_list() -> (ids: Vec<String>)
    ensures
        views(ids@) == role_ids(),
{
    let items = role_items();
    let mut ids: Vec<String> = Vec::new();
    let mut i: usize = 0;
    while i < items.len()
        invariant
            i <= items.len(),
            items.len() == role_ids().len(),
            forall|k: int| 0 <= k < items.len() ==> (#[trigger] items[k]).1@ == role_ids()[k],
            views(ids@) == role_ids().take(i as int),
        decreases items.len() - i,
    {
        let id = items[i].1.clone();
        assert(id@ == role_ids()[i as int]);
        let ghost before = ids@;
        ids.push(id);
        assert(views(ids@) =~= views(before).push(id@));
        assert(role_ids().take(i + 1) =~= role_ids().take(i as int).push(role_ids()[i as int]));
        i = i + 1;
    }
    assert(role_ids().take(i as int) =~= role_ids());
    ids
}

/// Whether `roles` holds a role equal to `role`.
pub fn contains_role(roles: &[String], role: &String) -> (r: bool)
    ensures
        r == views(roles@).contains(role@),
{
    let mut i: usize = 0;
    while i < roles.len()
        invariant
            i <= roles.len(),
            forall|k: int| 0 <= k < i ==> roles@[k]@ != role@,
        decreases roles.len() - i,
    {
        if roles[i] == *role {
            assert(views(roles@)[i as int] == role@);
            return true;
        }
        i = i + 1;
    }
    assert forall|k: int| 0 <= k < views(roles@).len() implies views(roles@)[k] != role@ by {
        assert(roles@[k]@ != role@);
    }
    false
}

/// Whether `role` is the identifier of a known role.
pub fn is_valid_role(role: &String) -> (r: bool)
    ensures
        r == is_role_id(role@),
{
    let ids = role_id_list();
    contains_role(ids.as_slice(), role)
}

proof fn lemma_views_take_push(v: Seq<String>, i: int)
    requires
        0 <= i < v.len(),
    ensures
        views(v.take(i + 1)) == views(v.take(i)).push(v[i]@),
{
    assert(views(v.take(i + 1)) =~= views(v.take(i)).push(v[i]@));
}

/// The roles of `roles` that are known, in their order.
pub fn validate_roles(roles: &[String]) -> (valid: Vec<String>)
    ensures
        views(valid@) == validated(views(roles@)),
{
    let mut valid: Vec<String> = Vec::new();
    let mut i: usize = 0;
    while i < roles.len()
        invariant
            i <= roles.len(),
            views(valid@) == validated(views(roles@.take(i as int))),
        decreases roles.len() - i,
    {
        let ok = is_valid_role(&roles[i]);
        proof {
            lemma_views_take_push(roles@, i as int);
            views(roles@.take(i as int)).lemma_filter_push(roles@[i as int]@, role_id_pred());
        }
        if ok {
            valid.push(roles[i].clone());
        }
        i = i + 1;
        assert(views(valid@) =~= validated(views(roles@.take(i as int))));
    }
    assert(roles@.take(i as int) =~= roles@);
    valid
}

/// The roles of `roles` that differ from `role`, in their order.
fn without_role(roles: &Vec<String>, role: &String) -> (rest: Vec<String>)
    ensures
        views(rest@) == views(roles@).filter(differs_from(role@)),
{
    let mut rest: Vec<String> = Vec::new();
    let mut i: usize = 0;
    while i < roles.len()
        invariant
            i <= roles.len(),
            views(rest@) == views(roles@.take(i as int)).filter(differs_from(role@)),
        decreases roles.len() - i,
    {
        proof {
            lemma_views_take_push(roles@, i as int);
            views(roles@.take(i as int)).lemma_filter_push(roles@[i as int]@, differs_from(role@));
        }
        if !(roles[i] == *role) {
            rest.push(roles[i].clone());
        }
        i = i + 1;
        assert(views(rest@) =~= views(roles@.take(i as int)).filter(differs_from(role@)));
    }
    assert(roles@.take(i as int) =~= roles@);
    rest
}

/// Toggles `role` in the chosen roles: removes every occurrence of it if it
/// is chosen, appends it otherwise.
pub fn toggle_role(roles: &mut Vec<String>, role: String)
    ensures
        views(final(roles)@) == toggled(views(old(roles)@), role@),
{
    if contains_role(roles.as_slice(), &role) {
        let rest = without_role(roles, &role);
        *roles = rest;
    } else {
        roles.push(role);
        assert(views(roles@) =~= views(old(roles)@).push(role@));
    }
}

/// A copy of the chosen roles.
pub fn get_current_roles(roles: &Vec<String>) -> (copy: Vec<String>)
    ensures
        views(copy@) == views(roles@),
{
    let mut copy: Vec<String> = Vec::new();
    let mut i: usize = 0;
    while i < roles.len()
        invariant
            i <= roles.len(),
            views(copy@) == views(roles@.take(i as int)),
        decreases roles.len() - i,
    {
        proof {
            lemma_views_take_push(roles@, i as int);
        }
        copy.push(roles[i].clone());
        i = i + 1;
        assert(views(copy@) =~= views(roles@.take(i as int)));
    }
    assert(roles@.take(i as int) =~= roles@);
    copy
}

/// `trim_spec` as a function value.
pub open spec fn trim_fn() -> spec_fn(Seq<char>) -> Seq<char> {
    |l: Seq<char>| trim_spec(l)
}

/// The predicate "is not empty".
pub open spec fn nonempty_pred() -> spec_fn(Seq<char>) -> bool {
    |l: Seq<char>| l.len() > 0
}

/// The roles that a configuration file with text `content` names: each line
/// trimmed, empty lines dropped, unknown roles dropped.
///
/// Lines are the pieces between `'\n'`; a `'\r'` before a `'\n'` and an empty
/// piece after a final `'\n'` are removed by the trimming and the dropping of
/// empty lines, so the result is that of `str::lines`.
pub open spec fn config_roles(content: Seq<char>) -> Seq<Seq<char>> {
    validated(split_lines(content).map_values(trim_fn()).filter(nonempty_pred()))
}

/// The roles named by a configuration file whose text is `content`.
pub fn parse_roles_config(content: &str) -> (roles: Vec<String>)
    ensures
        views(roles@) == config_roles(content@),
{
    let lines = lines_of(content);
    let ghost trimmed = views(lines@).map_values(trim_fn());
    let mut kept: Vec<String> = Vec::new();
    let mut i: usize = 0;
    while i < lines.len()
        invariant
            i <= lines.len(),
            trimmed == views(lines@).map_values(trim_fn()),
            views(kept@) == trimmed.take(i as int).filter(nonempty_pred()),
        decreases lines.len() - i,
    {
        let t = trim(lines[i].as_str());
        proof {
            assert(trimmed.take(i + 1) =~= trimmed.take(i as int).push(t@));
            trimmed.take(i as int).lemma_filter_push(t@, nonempty_pred());
        }
        if t.unicode_len() > 0 {
            let ghost before = kept@;
            kept.push(t);
            assert(views(kept@) =~= views(before).push(t@));
        }
        i = i + 1;
    }
    assert(trimmed.take(i as int) =~= trimmed);
    validate_roles(kept.as_slice())
}

/// The text of a configuration file naming `roles`: the roles joined with
/// `'\n'`.
pub fn roles_file_content(roles: &Vec<String>) -> (content: String)
    ensures
        content@ == join_lines(views(roles@)),
{
    join_with_newlines(roles)
}

/// The known role identifiers are non-empty and hold no whitespace.
pub proof fn lemma_role_id_shape(r: Seq<char>)
    requires
        is_role_id(r),
    ensures
        r.len() > 0,
        forall|k: int| 0 <= k < r.len() ==> !is_ws(#[trigger] r[k]),
{
    reveal_strlit("blue");
    reveal_strlit("hunter");
    reveal_strlit("cracker");
    reveal_strlit("dos");
    reveal_strlit("student");
    reveal_strlit("forensic");
    reveal_strlit("malware");
    reveal_strlit("mobile");
    reveal_strlit("network");
    reveal_strlit("osint");
    reveal_strlit("red");
    reveal_strlit("web");
    let i = choose|i: int| 0 <= i < role_ids().len() && role_ids()[i] == r;
    assert(0 <= i < 12);
}

/// Filtering by a predicate that every element meets changes nothing.
proof fn lemma_filter_all(s: Seq<Seq<char>>, p: spec_fn(Seq<char>) -> bool)
    requires
        forall|i: int| 0 <= i < s.len() ==> p(#[trigger] s[i]),
    ensures
        s.filter(p) == s,
    decreases s.len(),
{
    reveal(Seq::filter);
    if s.len() > 0 {
        lemma_filter_all(s.drop_last(), p);
        assert(p(s[s.len() - 1]));
        assert(s.drop_last().push(s.last()) =~= s);
    }
}

/// Roles saved to the configuration file are read back unchanged: for every
/// list of known role identifiers, the roles that the saved text names are
/// that list, in the same order.
pub proof fn lemma_saved_roles_read_back(roles: Seq<Seq<char>>)
    requires
        forall|i: int| 0 <= i < roles.len() ==> is_role_id(#[trigger] roles[i]),
    ensures
        config_roles(join_lines(roles)) == roles,
{
    reveal_with_fuel(Seq::filter, 2);
    if roles.len() == 0 {
        let lines = split_lines(join_lines(roles));
        assert(lines =~= seq![Seq::<char>::empty()]);
        let mapped = lines.map_values(trim_fn());
        assert(trim_spec(Seq::<char>::empty()) =~= Seq::<char>::empty());
        assert(mapped.drop_last() =~= Seq::<Seq<char>>::empty());
        assert(mapped.filter(nonempty_pred()) =~= Seq::<Seq<char>>::empty());
        assert(validated(Seq::<Seq<char>>::empty()) =~= Seq::<Seq<char>>::empty());
    } else {
        assert forall|i: int| 0 <= i < roles.len() implies single_line(#[trigger] roles[i]) by {
            lemma_role_id_shape(roles[i]);
            assert forall|k: int| 0 <= k < roles[i].len() implies roles[i][k] != '\n' by {
                assert(!is_ws(roles[i][k]));
            }
        }
        lemma_split_join(roles);
        assert forall|i: int| 0 <= i < roles.len() implies trim_spec(#[trigger] roles[i])
            == roles[i] by {
            lemma_role_id_shape(roles[i]);
            lemma_trim_no_whitespace(roles[i]);
        }
        let mapped = roles.map_values(trim_fn());
        assert(mapped =~= roles);
        assert forall|i: int| 0 <= i < roles.len() implies nonempty_pred()(#[trigger] roles[i]) by {
            lemma_role_id_shape(roles[i]);
        }
        lemma_filter_all(roles, nonempty_pred());
        lemma_filter_all(roles, role_id_pred());
    }
}

/// Every element of `s` is a known role identifier.
pub open spec fn all_known(s: Seq<Seq<char>>) -> bool {
    forall|i: int| 0 <= i < s.len() ==> is_role_id(#[trigger] s[i])
}

/// Toggling a role flips whether it is chosen and leaves every other role as
/// it was.
pub proof fn lemma_toggle_flips_membership(roles: Seq<Seq<char>>, role: Seq<char>, other: Seq<char>)
    ensures
        toggled(roles, role).contains(role) == !roles.contains(role),
        other != role ==> toggled(roles, role).contains(other) == roles.contains(other),
{
    if roles.contains(role) {
        let f = roles.filter(differs_from(role));
        if f.contains(role) {
            let k = choose|k: int| 0 <= k < f.len() && f[k] == role;
            roles.lemma_filter_pred(differs_from(role), k);
        }
        if other != role && roles.contains(other) {
            let k = choose|k: int| 0 <= k < roles.len() && roles[k] == other;
            roles.lemma_filter_contains(differs_from(role), k);
        }
        if f.contains(other) {
            roles.lemma_filter_contains_rev(differs_from(role), other);
        }
    } else {
        assert(roles.push(role)[roles.len() as int] == role);
        if other != role && roles.push(role).contains(other) {
            let k = choose|k: int| 0 <= k < roles.len() + 1 && roles.push(role)[k] == other;
            assert(roles[k] == other);
        }
    }
}

/// Choosing a role that was not chosen and then toggling it again gives the
/// roles back as they were.
pub proof fn lemma_toggle_twice_restores(roles: Seq<Seq<char>>, role: Seq<char>)
    requires
        !roles.contains(role),
    ensures
        toggled(toggled(roles, role), role) == roles,
{
    let once = roles.push(role);
    assert(once[roles.len() as int] == role);
    assert(toggled(roles, role) == once);
    roles.lemma_filter_push(role, differs_from(role));
    assert forall|i: int| 0 <= i < roles.len() implies differs_from(role)(#[trigger] roles[i]) by {
        if roles[i] == role {
            assert(roles.contains(role));
        }
    }
    lemma_filter_all(roles, differs_from(role));
}

/// Validating roles that were validated already changes nothing.
pub proof fn lemma_validate_idempotent(roles: Seq<Seq<char>>)
    ensures
        validated(validated(roles)) == validated(roles),
{
    let v = validated(roles);
    assert forall|i: int| 0 <= i < v.len() implies role_id_pred()(#[trigger] v[i]) by {
        roles.lemma_filter_pred(role_id_pred(), i);
    }
    lemma_filter_all(v, role_id_pred());
}

/// Validation keeps exactly the known roles of the list.
pub proof fn lemma_validated_members(roles: Seq<Seq<char>>, r: Seq<char>)
    ensures
        validated(roles).contains(r) == (roles.contains(r) && is_role_id(r)),
{
    let v = validated(roles);
    if v.contains(r) {
        let k = choose|k: int| 0 <= k < v.len() && v[k] == r;
        roles.lemma_filter_pred(role_id_pred(), k);
        roles.lemma_filter_contains_rev(role_id_pred(), r);
    }
    if roles.contains(r) && is_role_id(r) {
        let k = choose|k: int| 0 <= k < roles.len() && roles[k] == r;
        roles.lemma_filter_contains(role_id_pred(), k);
    }
}

/// Toggling a known role keeps the chosen roles known.
pub proof fn lemma_toggle_keeps_known(roles: Seq<Seq<char>>, role: Seq<char>)
    requires
        all_known(roles),
        is_role_id(role),
    ensures
        all_known(toggled(roles, role)),
{
    let t = toggled(roles, role);
    assert forall|i: int| 0 <= i < t.len() implies is_role_id(#[trigger] t[i]) by {
        if roles.contains(role) {
            assert(t.contains(t[i]));
            roles.lemma_filter_contains_rev(differs_from(role), t[i]);
            let k = choose|k: int| 0 <= k < roles.len() && roles[k] == t[i];
            assert(is_role_id(roles[k]));
        } else if i < roles.len() {
            assert(t[i] == roles[i]);
        }
    }
}

/// Filtering a sequence without duplicates gives one without duplicates.
proof fn lemma_filter_no_duplicates(s: Seq<Seq<char>>, p: spec_fn(Seq<char>) -> bool)
    requires
        s.no_duplicates(),
    ensures
        s.filter(p).no_duplicates(),
    decreases s.len(),
{
    if s.len() > 0 {
        let init = s.drop_last();
        assert(init.no_duplicates());
        lemma_filter_no_duplicates(init, p);
        assert(init.push(s.last()) =~= s);
        init.lemma_filter_push(s.last(), p);
        if p(s.last()) {
            let f = init.filter(p);
            if f.contains(s.last()) {
                init.lemma_filter_contains_rev(p, s.last());
                let k = choose|k: int| 0 <= k < init.len() && init[k] == s.last();
                assert(s[k] == s[s.len() - 1]);
            }
            assert(f.push(s.last()).no_duplicates());
        }
    }
}

/// Toggling never makes a role appear twice.
pub proof fn lemma_toggle_keeps_no_duplicates(roles: Seq<Seq<char>>, role: Seq<char>)
    requires
        roles.no_duplicates(),
    ensures
        toggled(roles, role).no_duplicates(),
{
    if roles.contains(role) {
        lemma_filter_no_duplicates(roles, differs_from(role));
    } else {
        let t = roles.push(role);
        assert forall|i: int, j: int| 0 <= i < t.len() && 0 <= j < t.len() && i != j implies t[i]
            != t[j] by {
            if i == roles.len() {
                assert(t[j] == roles[j]);
            } else if j == roles.len() {
                assert(t[i] == roles[i]);
            } else {
                assert(t[i] == roles[i] && t[j] == roles[j]);
            }
        }
    }
}

/// The roles that a configuration file names are all known roles.
pub proof fn lemma_config_roles_known(content: Seq<char>)
    ensures
        all_known(config_roles(content)),
{
    let lines = split_lines(content).map_values(trim_fn()).filter(nonempty_pred());
    assert forall|i: int| 0 <= i < config_roles(content).len() implies is_role_id(
        #[trigger] config_roles(content)[i],
    ) by {
        lines.lemma_filter_pred(role_id_pred(), i);
    }
}

/// Saving the roles read from a configuration file and reading the saved
/// file again gives the same roles.
pub proof fn lemma_reread_is_stable(content: Seq<char>)
    ensures
        config_roles(join_lines(config_roles(content))) == config_roles(content),
{
    lemma_config_roles_known(content);
    lemma_saved_roles_read_back(config_roles(content));
}

} // verus!
