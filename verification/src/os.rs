//! Operating-system detection from the `ID=` entry of `os-release` and the
//! package manager that goes with each system.

use vstd::prelude::*;
use vstd::std_specs::cmp::PartialEqSpecImpl;
use crate::text::{chars_of, starts_with, strip_prefixes, trim_by, trim_range, views, CharClass};

verus! {

/// The operating system the application runs on.
#[derive(Debug, Clone)]
pub enum OsType {
    Arch,
    NixOS,
    /// Another system, by its lower-case `os-release` identifier.
    Other(String),
    /// No identifier was found.
    Unknown,
}

/// The mathematical value of an `OsType`.
pub enum OsKind {
    Arch,
    NixOS,
    Other(Seq<char>),
    Unknown,
}

impl View for OsType {
    type V = OsKind;

    open spec fn view(&self) -> OsKind {
        match self {
            OsType::Arch => OsKind::Arch,
            OsType::NixOS => OsKind::NixOS,
            OsType::Other(name) => OsKind::Other(name@),
            OsType::Unknown => OsKind::Unknown,
        }
    }
}

impl PartialEq for OsType {
    fn eq(&self, other: &Self) -> (r: bool) {
        match (self, other) {
            (OsType::Arch, OsType::Arch) => true,
            (OsType::NixOS, OsType::NixOS) => true,
            (OsType::Other(a), OsType::Other(b)) => *a == *b,
            (OsType::Unknown, OsType::Unknown) => true,
            _ => false,
        }
    }
}

impl PartialEqSpecImpl for OsType {
    open spec fn obeys_eq_spec() -> bool {
        true
    }

    open spec fn eq_spec(&self, other: &OsType) -> bool {
        self@ == other@
    }
}

/// The package manager of a system.
#[derive(Debug, Clone)]
pub enum PackageManager {
    Pacman,
    Nix,
    /// The package manager of another system, named by the system's identifier.
    Other(String),
    Unknown,
}

/// The mathematical value of a `PackageManager`.
pub enum PackageManagerKind {
    Pacman,
    Nix,
    Other(Seq<char>),
    Unknown,
}

impl View for PackageManager {
    type V = PackageManagerKind;

    open spec fn view(&self) -> PackageManagerKind {
        match self {
            PackageManager::Pacman => PackageManagerKind::Pacman,
            PackageManager::Nix => PackageManagerKind::Nix,
            PackageManager::Other(name) => PackageManagerKind::Other(name@),
            PackageManager::Unknown => PackageManagerKind::Unknown,
        }
    }
}

impl PartialEq for PackageManager {
    fn eq(&self, other: &Self) -> (r: bool) {
        match (self, other) {
            (PackageManager::Pacman, PackageManager::Pacman) => true,
            (PackageManager::Nix, PackageManager::Nix) => true,
            (PackageManager::Other(a), PackageManager::Other(b)) => *a == *b,
            (PackageManager::Unknown, PackageManager::Unknown) => true,
            _ => false,
        }
    }
}

impl PartialEqSpecImpl for PackageManager {
    open spec fn obeys_eq_spec() -> bool {
        true
    }

    open spec fn eq_spec(&self, other: &PackageManager) -> bool {
        self@ == other@
    }
}

/// The package manager of a system of kind `os`.
pub open spec fn package_manager_of(os: OsKind) -> PackageManagerKind {
    match os {
        OsKind::Arch => PackageManagerKind::Pacman,
        OsKind::NixOS => PackageManagerKind::Nix,
        OsKind::Other(name) => PackageManagerKind::Other(name),
        OsKind::Unknown => PackageManagerKind::Unknown,
    }
}

/// The package manager of the system `os_type`: pacman on Arch, nix on
/// NixOS, the system's own name otherwise.
pub fn detect_package_manager(os_type: &OsType) -> (pm: PackageManager)
    ensures
        pm@ == package_manager_of(os_type@),
        os_type@ is Arch ==> pm@ is Pacman,
        os_type@ is NixOS ==> pm@ is Nix,
        forall|name: Seq<char>|
            os_type@ == OsKind::Other(name) ==> pm@ == PackageManagerKind::Other(name),
        os_type@ is Unknown ==> pm@ is Unknown,
{
    match os_type {
        OsType::Arch => PackageManager::Pacman,
        OsType::NixOS => PackageManager::Nix,
        OsType::Other(name) => PackageManager::Other(name.clone()),
        OsType::Unknown => PackageManager::Unknown,
    }
}

/// The package manager that probing for the `pacman` and `nix` programs
/// finds: pacman first, then nix.
pub fn package_manager_from_probes(pacman_found: bool, nix_found: bool) -> (pm: PackageManager)
    ensures
        pm@ == (if pacman_found {
            PackageManagerKind::Pacman
        } else if nix_found {
            PackageManagerKind::Nix
        } else {
            PackageManagerKind::Unknown
        }),
{
    if pacman_found {
        PackageManager::Pacman
    } else if nix_found {
        PackageManager::Nix
    } else {
        PackageManager::Unknown
    }
}

/// The system that an `os-release` identifier names.
pub open spec fn os_kind_of(id: Seq<char>) -> OsKind {
    if id == "arch"@ {
        OsKind::Arch
    } else if id == "nixos"@ {
        OsKind::NixOS
    } else if id.len() > 0 {
        OsKind::Other(id)
    } else {
        OsKind::Unknown
    }
}

/// The system that the identifier `id` names: `arch`, `nixos`, any other
/// non-empty identifier, or none for the empty one.
pub fn os_type_from_id(id: &str) -> (os: OsType)
    ensures
        os@ == os_kind_of(id@),
        id@ == "arch"@ ==> os@ is Arch,
        id@ == "nixos"@ ==> os@ is NixOS,
        id@ != "arch"@ && id@ != "nixos"@ && id@.len() > 0 ==> os@ == OsKind::Other(id@),
        id@.len() == 0 ==> os@ is Unknown,
{
    proof {
        lemma_identifier_names(id@);
    }
    let id = String::from_str(id);
    if id == String::from_str("arch") {
        OsType::Arch
    } else if id == String::from_str("nixos") {
        OsType::NixOS
    } else if id.unicode_len() > 0 {
        OsType::Other(id)
    } else {
        OsType::Unknown
    }
}

/// The key that starts an identifier line of `os-release`.
pub open spec fn id_key() -> Seq<char> {
    "ID="@
}

/// The value of an `os-release` line if it is an identifier line: the text
/// after every leading `ID=`, without surrounding `"` characters.
pub open spec fn id_line_value(line: Seq<char>) -> Option<Seq<char>> {
    if starts_with(line, id_key()) {
        Some(trim_by(strip_prefixes(line, id_key()), CharClass::Exactly('"')))
    } else {
        None
    }
}

/// The value of the first identifier line among `lines`, if any.
pub open spec fn first_id_value(lines: Seq<Seq<char>>) -> Option<Seq<char>>
    decreases lines.len(),
{
    if lines.len() == 0 {
        None
    } else if id_line_value(lines[0]) is Some {
        id_line_value(lines[0])
    } else {
        first_id_value(lines.drop_first())
    }
}

/// Names what `str::to_lowercase` returns for a text: each character
/// replaced by its Unicode lower-case mapping.
pub uninterp spec fn lowercase_of(s: Seq<char>) -> Seq<char>;

/// Calls `str::to_lowercase`. Its result, the Unicode lower-case mapping of
/// the text, is claimed to be `lowercase_of` of the argument and nothing
/// more: the mapping itself is not stated.
#[verifier::external_body]
fn to_lowercase(s: &str) -> (r: String)
    ensures
        r@ == lowercase_of(s@),
{
    s.to_lowercase()
}

/// Whether `v[i..]` starts with `ID=`.
fn id_key_at(v: &Vec<char>, i: usize) -> (r: bool)
    requires
        i <= v.len(),
    ensures
        r == starts_with(v@.skip(i as int), id_key()),
{
    proof {
        reveal_strlit("ID=");
    }
    let ghost rest = v@.skip(i as int);
    if v.len() - i >= 3 && v[i] == 'I' && v[i + 1] == 'D' && v[i + 2] == '=' {
        assert(rest.take(3) =~= id_key());
        true
    } else {
        proof {
            if rest.len() >= 3 {
                assert(rest.take(3)[0] == v[i as int]);
                assert(rest.take(3)[1] == v[i + 1]);
                assert(rest.take(3)[2] == v[i + 2]);
            }
        }
        false
    }
}

/// The value of `line` if it is an identifier line of `os-release` (it starts
/// with `ID=`): the text after every leading `ID=`, without surrounding `"`.
pub fn os_release_value(line: &str) -> (value: Option<String>)
    ensures
        value matches Some(v) ==> id_line_value(line@) == Some(v@),
        value is None ==> id_line_value(line@) is None,
{
    proof {
        reveal_strlit("ID=");
    }
    let v = chars_of(line);
    assert(v@.skip(0) =~= line@);
    if !id_key_at(&v, 0) {
        return None;
    }
    let mut i: usize = 0;
    while id_key_at(&v, i)
        invariant
            i <= v.len(),
            v@ == line@,
            id_key().len() == 3,
            strip_prefixes(line@, id_key()) == strip_prefixes(v@.skip(i as int), id_key()),
        decreases v.len() - i,
    {
        assert(v@.skip(i as int).skip(3) =~= v@.skip(i + 3));
        i = i + 3;
    }
    let value = trim_range(&v, i, &CharClass::Exactly('"'));
    Some(value)
}

/// The system named by the lines of an `os-release` file: the lower-cased
/// value of its first identifier line, or none when there is no such line.
pub open spec fn os_kind_from_lines(lines: Seq<Seq<char>>) -> OsKind {
    match first_id_value(lines) {
        Some(value) => os_kind_of(lowercase_of(value)),
        None => OsKind::Unknown,
    }
}

/// The system named by the lines of an `os-release` file.
pub fn detect_os_from_lines(lines: &Vec<String>) -> (os: OsType)
    ensures
        os@ == os_kind_from_lines(views(lines@)),
{
    let mut i: usize = 0;
    assert(views(lines@).skip(0) =~= views(lines@));
    while i < lines.len()
        invariant
            i <= lines.len(),
            first_id_value(views(lines@)) == first_id_value(views(lines@).skip(i as int)),
        decreases lines.len() - i,
    {
        let ghost rest = views(lines@).skip(i as int);
        assert(rest[0] == lines@[i as int]@);
        match os_release_value(lines[i].as_str()) {
            Some(value) => {
                let id = to_lowercase(value.as_str());
                return os_type_from_id(id.as_str());
            },
            None => {
                assert(rest.drop_first() =~= views(lines@).skip(i + 1));
            },
        }
        i = i + 1;
    }
    OsType::Unknown
}

/// The resource path of the welcome picture for the system `os`: the NixOS
/// picture on NixOS, the Arch picture everywhere else.
pub fn welcome_image_path(os: &OsType) -> (path: String)
    ensures
        path@ == (if os@ is NixOS {
            "/org/athenaos/welcome/images/athena-nix-one-liner.png"@
        } else {
            "/org/athenaos/welcome/images/athena-arch-one-liner.png"@
        }),
{
    match os {
        OsType::NixOS => String::from_str("/org/athenaos/welcome/images/athena-nix-one-liner.png"),
        _ => String::from_str("/org/athenaos/welcome/images/athena-arch-one-liner.png"),
    }
}

/// No line before `prefix`'s end starts with `ID=`.
pub open spec fn no_id_line(lines: Seq<Seq<char>>) -> bool {
    forall|j: int| 0 <= j < lines.len() ==> !starts_with(#[trigger] lines[j], "ID="@)
}

proof fn lemma_first_id_value_after_prefix(
    prefix: Seq<Seq<char>>,
    line: Seq<char>,
    rest: Seq<Seq<char>>,
)
    requires
        no_id_line(prefix),
        starts_with(line, "ID="@),
    ensures
        first_id_value(prefix + seq![line] + rest) == Some(
            trim_by(strip_prefixes(line, "ID="@), CharClass::Exactly('"')),
        ),
    decreases prefix.len(),
{
    let all = prefix + seq![line] + rest;
    if prefix.len() == 0 {
        assert(all[0] == line);
    } else {
        assert(all[0] == prefix[0]);
        assert(!starts_with(prefix[0], "ID="@));
        let p2 = prefix.drop_first();
        assert(no_id_line(p2)) by {
            assert forall|j: int| 0 <= j < p2.len() implies !starts_with(#[trigger] p2[j], "ID="@)
                by {
                assert(p2[j] == prefix[j + 1]);
            }
        }
        lemma_first_id_value_after_prefix(p2, line, rest);
        assert(all.drop_first() =~= p2 + seq![line] + rest);
    }
}

/// The system is decided by the first line that starts with `ID=`, wherever
/// it stands: for lines `prefix + [line] + rest` where no line of `prefix`
/// starts with `ID=` and `line` does, the system is the one that the
/// lower-cased text after the leading `ID=`s of `line`, without surrounding
/// `"`, names; the lines after it do not matter.
pub proof fn lemma_first_id_line_decides(
    prefix: Seq<Seq<char>>,
    line: Seq<char>,
    rest: Seq<Seq<char>>,
)
    requires
        no_id_line(prefix),
        starts_with(line, "ID="@),
    ensures
        os_kind_from_lines(prefix + seq![line] + rest) == os_kind_of(
            lowercase_of(trim_by(strip_prefixes(line, "ID="@), CharClass::Exactly('"'))),
        ),
{
    lemma_first_id_value_after_prefix(prefix, line, rest);
}

/// Lines of which none starts with `ID=` name no system.
pub proof fn lemma_no_id_line_is_unknown(lines: Seq<Seq<char>>)
    requires
        no_id_line(lines),
    ensures
        os_kind_from_lines(lines) is Unknown,
    decreases lines.len(),
{
    if lines.len() > 0 {
        assert(!starts_with(lines[0], "ID="@));
        let l2 = lines.drop_first();
        assert(no_id_line(l2)) by {
            assert forall|j: int| 0 <= j < l2.len() implies !starts_with(#[trigger] l2[j], "ID="@)
                by {
                assert(l2[j] == lines[j + 1]);
            }
        }
        lemma_no_id_line_is_unknown(l2);
    }
}

/// The identifiers `arch` and `nixos` name Arch and NixOS, every other
/// non-empty identifier names another system by that identifier, and the
/// empty one names none.
pub proof fn lemma_identifier_names(id: Seq<char>)
    ensures
        id == "arch"@ ==> os_kind_of(id) is Arch,
        id == "nixos"@ ==> os_kind_of(id) is NixOS,
        id != "arch"@ && id != "nixos"@ && id.len() > 0 ==> os_kind_of(id) == OsKind::Other(id),
        id.len() == 0 ==> os_kind_of(id) is Unknown,
{
    reveal_strlit("arch");
    reveal_strlit("nixos");
    if id.len() == 0 {
        assert(id != "arch"@ && id != "nixos"@);
    }
}

} // verus!
