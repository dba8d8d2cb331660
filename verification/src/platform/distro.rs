//! Recognising the distribution, for the sake of the right command to install something.

use crate::text::chars;
use crate::text::chars::{ascii_lowercase, chars_of, same_text, text_of_range};
use crate::text::glue::{glue2, glue3};
use crate::text::search;
use crate::text::search::{cut_once, has_text, trimmed};
use crate::text::split;
use crate::text::split::lines_of;
use vstd::prelude::*;

verus! {

#[derive(Debug, Clone, Copy, PartialEq, Eq, Structural)]
pub enum Family {
    Arch,
    Debian,
    Fedora,
    Unknown,
}

/// The distribution of this machine.
pub struct Distro {
    pub name: String,
    pub family: Family,
}

/// A package, whose name may differ from one distribution to the next.
#[derive(Debug, Clone, Copy)]
pub struct Package {
    pub arch: &'static str,
    pub debian: &'static str,
    pub fedora: &'static str,
}

impl Package {
    /// A package with one name everywhere.
    pub fn same(name: &'static str) -> (package: Package)
        ensures
            package == (Package { arch: name, debian: name, fedora: name }),
    {
        Package { arch: name, debian: name, fedora: name }
    }

    /// A package with a name of its own in each distribution.
    pub fn per_distro(
        arch: &'static str,
        debian: &'static str,
        fedora: &'static str,
    ) -> (package: Package)
        ensures
            package == (Package { arch, debian, fedora }),
    {
        Package { arch, debian, fedora }
    }
}

// ---------------------------------------------------------------------------------------------
// Reading the description of a distribution

pub open spec fn is_quote(c: char) -> bool {
    c == '"' || c == '\''
}

pub open spec fn unquote_start(s: Seq<char>) -> Seq<char>
    decreases s.len(),
{
    if s.len() > 0 && is_quote(s[0]) {
        unquote_start(s.skip(1))
    } else {
        s
    }
}

pub open spec fn unquote_end(s: Seq<char>) -> Seq<char>
    decreases s.len(),
{
    if s.len() > 0 && is_quote(s.last()) {
        unquote_end(s.drop_last())
    } else {
        s
    }
}

/// A text without the quotes at its two ends, single or double.
pub open spec fn unquoted(s: Seq<char>) -> Seq<char> {
    unquote_end(unquote_start(s))
}

/// The key and the value of a line, where it has them.
pub open spec fn entry(line: Seq<char>) -> Option<(Seq<char>, Seq<char>)> {
    match search::split_once(line, "="@) {
        Some((key, value)) => Some((search::trim(key), unquoted(search::trim(value)))),
        None => None,
    }
}

/// The value of a key: that of its last line, and an empty text where there is none.
pub open spec fn value_of(lines: Seq<Seq<char>>, key: Seq<char>) -> Seq<char>
    decreases lines.len(),
{
    if lines.len() == 0 {
        Seq::empty()
    } else {
        match entry(lines.last()) {
            Some((own, value)) => if own == key {
                value
            } else {
                value_of(lines.drop_last(), key)
            },
            None => value_of(lines.drop_last(), key),
        }
    }
}

/// The family that a distribution belongs to, by its own id and by those it takes after.
pub open spec fn family_of(id: Seq<char>, like: Seq<char>) -> Family {
    let ids = id + " "@ + like;
    if search::contains(ids, "arch"@) {
        Family::Arch
    } else if search::contains(ids, "debian"@) || search::contains(ids, "ubuntu"@) {
        Family::Debian
    } else if search::contains(ids, "fedora"@) || search::contains(ids, "rhel"@)
        || search::contains(ids, "centos"@) {
        Family::Fedora
    } else {
        Family::Unknown
    }
}

fn without_quotes(text: &str) -> (out: String)
    ensures
        out@ == unquoted(text@),
{
    let chars = chars_of(text);
    let mut from: usize = 0;
    assert(text@.skip(0) =~= text@);
    while from < chars.len() && (chars[from] == '"' || chars[from] == '\'')
        invariant
            from <= chars@.len(),
            chars@ == text@,
            unquote_start(text@) == unquote_start(text@.skip(from as int)),
        decreases chars@.len() - from,
    {
        assert(text@.skip(from as int).skip(1) =~= text@.skip(from + 1));
        from += 1;
    }
    let ghost rest = text@.skip(from as int);
    let mut to: usize = chars.len();
    assert(rest.take(to - from) =~= rest);
    while from < to && (chars[to - 1] == '"' || chars[to - 1] == '\'')
        invariant
            from <= to <= chars@.len(),
            chars@ == text@,
            rest == text@.skip(from as int),
            unquote_end(rest) == unquote_end(rest.take(to - from)),
        decreases to - from,
    {
        assert(rest.take(to - from).drop_last() =~= rest.take(to - from - 1));
        assert(rest.take(to - from).last() == text@[to - 1]);
        to -= 1;
    }
    assert(rest.take(to - from) =~= text@.subrange(from as int, to as int));
    text_of_range(chars.as_slice(), from, to)
}

impl Distro {
    /// A machine that gives no description of its distribution.
    pub fn unknown() -> (distro: Distro)
        ensures
            distro.name@ == Seq::<char>::empty(),
            distro.family == Family::Unknown,
    {
        Distro { name: String::new(), family: Family::Unknown }
    }

    /// Reads the text of `/etc/os-release`.
    pub fn parse(text: &str) -> (distro: Distro)
        ensures
            ({
                let lines = split::lines(text@);
                let id = chars::ascii_lower_text(value_of(lines, "ID"@));
                let like = chars::ascii_lower_text(value_of(lines, "ID_LIKE"@));
                let pretty = value_of(lines, "PRETTY_NAME"@);
                &&& distro.name@ == if pretty.len() == 0 {
                    id
                } else {
                    pretty
                }
                &&& distro.family == family_of(id, like)
            }),
    {
        let lines = lines_of(text);
        let ghost all = chars::texts(lines@);
        let mut id = String::new();
        let mut like = String::new();
        let mut pretty = String::new();
        let mut i: usize = 0;
        proof {
            reveal_strlit("ID");
            reveal_strlit("ID_LIKE");
            reveal_strlit("PRETTY_NAME");
            assert("ID"@.len() == 2 && "ID_LIKE"@.len() == 7 && "PRETTY_NAME"@.len() == 11);
        }
        while i < lines.len()
            invariant
                i <= lines@.len(),
                all == chars::texts(lines@),
                "ID"@ != "ID_LIKE"@,
                "ID"@ != "PRETTY_NAME"@,
                "ID_LIKE"@ != "PRETTY_NAME"@,
                id@ == value_of(all.take(i as int), "ID"@),
                like@ == value_of(all.take(i as int), "ID_LIKE"@),
                pretty@ == value_of(all.take(i as int), "PRETTY_NAME"@),
            decreases lines@.len() - i,
        {
            assert(all.take(i + 1).drop_last() =~= all.take(i as int));
            assert(all.take(i + 1).last() == lines@[i as int]@);
            match cut_once(lines[i].as_str(), "=") {
                Some((key, value)) => {
                    let key = trimmed(key.as_str());
                    let value = without_quotes(trimmed(value.as_str()).as_str());
                    if same_text(key.as_str(), "ID") {
                        id = value;
                    } else if same_text(key.as_str(), "ID_LIKE") {
                        like = value;
                    } else if same_text(key.as_str(), "PRETTY_NAME") {
                        pretty = value;
                    }
                },
                None => {},
            }
            i += 1;
        }
        assert(all.take(i as int) =~= split::lines(text@));
        let id = ascii_lowercase(id.as_str());
        let like = ascii_lowercase(like.as_str());
        let ids = glue3(id.as_str(), " ", like.as_str());
        let ids = ids.as_str();
        let family = if has_text(ids, "arch") {
            Family::Arch
        } else if has_text(ids, "debian") || has_text(ids, "ubuntu") {
            Family::Debian
        } else if has_text(ids, "fedora") || has_text(ids, "rhel") || has_text(ids, "centos") {
            Family::Fedora
        } else {
            Family::Unknown
        };
        let name = if pretty.as_str().is_empty() {
            id
        } else {
            pretty
        };
        Distro { name, family }
    }

    /// The command that installs a package; empty where the distribution is not known, because
    /// a command that does not work is worse than none.
    pub fn install(&self, package: Package) -> (command: String)
        ensures
            command@ == install_command(self.family, package),
    {
        match self.family {
            Family::Arch => glue2("sudo pacman -S ", package.arch),
            Family::Debian => glue2("sudo apt install ", package.debian),
            Family::Fedora => glue2("sudo dnf install ", package.fedora),
            Family::Unknown => String::new(),
        }
    }
}

pub open spec fn install_command(family: Family, package: Package) -> Seq<char> {
    match family {
        Family::Arch => "sudo pacman -S "@ + package.arch@,
        Family::Debian => "sudo apt install "@ + package.debian@,
        Family::Fedora => "sudo dnf install "@ + package.fedora@,
        Family::Unknown => Seq::empty(),
    }
}

/// Quotes around a value make no difference.
pub proof fn quotes_make_no_difference(value: Seq<char>)
    requires
        value.len() > 0 ==> !is_quote(value[0]) && !is_quote(value.last()),
    ensures
        unquoted(value) == value,
        unquoted(seq!['"'] + value + seq!['"']) == value,
        unquoted(seq!['\''] + value + seq!['\'']) == value,
{
    quoted_value('"', value);
    quoted_value('\'', value);
}

proof fn quoted_value(quote: char, value: Seq<char>)
    requires
        is_quote(quote),
        value.len() > 0 ==> !is_quote(value[0]) && !is_quote(value.last()),
    ensures
        unquoted(seq![quote] + value + seq![quote]) == value,
{
    let whole = seq![quote] + value + seq![quote];
    assert(whole.skip(1) =~= value + seq![quote]);
    reveal_with_fuel(unquote_start, 3);
    if value.len() == 0 {
        assert(whole.skip(1).skip(1) =~= Seq::<char>::empty());
        assert(value =~= Seq::<char>::empty());
    } else {
        assert(unquote_start(whole) == value + seq![quote]);
        assert((value + seq![quote]).drop_last() =~= value);
        reveal_with_fuel(unquote_end, 2);
    }
}

/// A line gives its key a value; a later line for the same key takes the place of an earlier one,
/// and the other keys keep their values. A key without a line has an empty value.
pub proof fn the_last_line_of_a_key_counts(
    lines: Seq<Seq<char>>,
    line: Seq<char>,
    key: Seq<char>,
    value: Seq<char>,
    other: Seq<char>,
)
    ensures
        entry(line) == Some((key, value)) ==> value_of(lines.push(line), key) == value,
        entry(line) == Some((key, value)) && other != key ==> value_of(lines.push(line), other)
            == value_of(lines, other),
        entry(line) is None ==> value_of(lines.push(line), other) == value_of(lines, other),
        value_of(Seq::empty(), other).len() == 0,
{
    assert(lines.push(line).drop_last() =~= lines);
}

/// A line is its key, an equals sign and its value, with or without double quotes around it; a
/// line without an equals sign has neither.
pub proof fn a_line_is_a_key_and_a_value(line: Seq<char>, key: Seq<char>, value: Seq<char>)
    requires
        value.len() > 0 ==> !is_quote(value[0]) && !is_quote(value.last()),
    ensures
        search::split_once(line, "="@) is None <==> entry(line) is None,
        search::split_once(line, "="@) is Some && search::trim(
            search::split_once(line, "="@).unwrap().0,
        ) == key && (search::trim(search::split_once(line, "="@).unwrap().1) == value
            || search::trim(search::split_once(line, "="@).unwrap().1) == seq!['"'] + value
            + seq!['"']) ==> entry(line) == Some((key, value)),
{
    quotes_make_no_difference(value);
}

/// The family is told by the names that stand in the id of the distribution or in those it takes
/// after: `arch` first, then `debian` and `ubuntu`, then `fedora`, `rhel` and `centos`.
pub proof fn names_tell_the_family(id: Seq<char>, like: Seq<char>, before: Seq<char>, after: Seq<char>)
    ensures
        family_of(id, like) == Family::Arch <==> search::contains(id + " "@ + like, "arch"@),
        family_of(id, like) == Family::Debian <==> !search::contains(id + " "@ + like, "arch"@) && (
        search::contains(id + " "@ + like, "debian"@) || search::contains(
            id + " "@ + like,
            "ubuntu"@,
        )),
        family_of(id, like) == Family::Unknown <==> !search::contains(id + " "@ + like, "arch"@)
            && !search::contains(id + " "@ + like, "debian"@) && !search::contains(
            id + " "@ + like,
            "ubuntu"@,
        ) && !search::contains(id + " "@ + like, "fedora"@) && !search::contains(
            id + " "@ + like,
            "rhel"@,
        ) && !search::contains(id + " "@ + like, "centos"@),
        family_of(id, before + "arch"@ + after) == Family::Arch,
        family_of(before + "arch"@ + after, like) == Family::Arch,
{
    let one = id + " "@ + (before + "arch"@ + after);
    assert(one =~= (id + " "@ + before) + "arch"@ + after);
    search::what_is_contained_stands_inside(id + " "@ + before, "arch"@, after, id);
    let two = (before + "arch"@ + after) + " "@ + like;
    assert(two =~= before + "arch"@ + (after + " "@ + like));
    search::what_is_contained_stands_inside(before, "arch"@, after + " "@ + like, id);
}

/// Each family installs with its own command, and by the name that the package has there.
pub proof fn each_family_has_its_command(package: Package)
    ensures
        install_command(Family::Arch, package) == "sudo pacman -S "@ + package.arch@,
        install_command(Family::Debian, package) == "sudo apt install "@ + package.debian@,
        install_command(Family::Fedora, package) == "sudo dnf install "@ + package.fedora@,
        install_command(Family::Unknown, package).len() == 0,
{
}

} // verus!
