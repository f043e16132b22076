//! The registry of installed versions.
//!
//! Nothing is cached: the registry is recomputed, on every call, from the names
//! of the entries found in the installation root, and without those names
//! there is no registry. An entry whose name begins
//! with `R-` is an installation, and what follows the prefix is its version.
//! Versions are listed in lexicographic order of their characters, so `4.10.0`
//! comes before `4.9.0`.

use vstd::prelude::*;
use vstd::seq_lib::*;
use vstd::string::*;

use crate::error::{Error, ErrorModel};
use crate::text::{
    contains_text, lemma_lex_le_antisymmetric, lemma_lex_le_total, lemma_lex_le_transitive,
    lex_le, lex_le_str, starts_with, texts,
};

verus! {

/// The directory under which every version is installed.
pub const R_ROOT: &'static str = "C:\\Program Files\\R";

/// The name of the directory of `version` inside the root.
pub open spec fn dir_name(version: Seq<char>) -> Seq<char> {
    "R-"@ + version
}

/// Where `version` is installed: the child `R-<version>` of the root.
pub open spec fn install_path(version: Seq<char>) -> Seq<char> {
    R_ROOT@ + "\\R-"@ + version
}

/// An entry of this name is an installation.
pub open spec fn is_install_dir(name: Seq<char>) -> bool {
    "R-"@.is_prefix_of(name)
}

/// The versions of the installations among `names`, in the order of `names`.
pub open spec fn discovered(names: Seq<Seq<char>>) -> Seq<Seq<char>>
    decreases names.len(),
{
    if names.len() == 0 {
        Seq::empty()
    } else if is_install_dir(names.last()) {
        discovered(names.drop_last()).push(names.last().skip(2))
    } else {
        discovered(names.drop_last())
    }
}

/// Each version of the list comes before those that follow it.
pub open spec fn sorted(list: Seq<Seq<char>>) -> bool {
    forall|i: int, j: int| 0 <= i <= j < list.len() ==> lex_le(list[i], list[j])
}

/// `listing` is the registry that the entries `names` give: the versions of
/// the installations among them, each as often as it is found, in order.
pub open spec fn lists(listing: Seq<Seq<char>>, names: Seq<Seq<char>>) -> bool {
    sorted(listing) && listing.to_multiset() == discovered(names).to_multiset()
}

/// Builds the path of the directory in which `version` is installed.
pub fn install_dir(version: &str) -> (path: String)
    ensures
        path@ == install_path(version@),
{
    let mut path = String::from_str(R_ROOT);
    path.append("\\R-");
    path.append(version);
    path
}

/// Puts `version` into the sorted `list`, behind the versions that do not come
/// after it.
fn insert_sorted(list: &mut Vec<String>, version: String)
    requires
        sorted(texts(old(list)@)),
    ensures
        sorted(texts(final(list)@)),
        texts(final(list)@).to_multiset() == texts(old(list)@).to_multiset().insert(version@),
{
    let ghost before = texts(list@);
    let mut at: usize = 0;
    while at < list.len() && lex_le_str(list[at].as_str(), version.as_str())
        invariant
            at <= list.len(),
            texts(list@) == before,
            forall|j: int| 0 <= j < at ==> lex_le(before[j], version@),
        decreases list.len() - at,
    {
        at += 1;
    }
    list.insert(at, version);
    proof {
        let after = texts(list@);
        assert(after =~= before.insert(at as int, version@));
        to_multiset_insert(before, at as int, version@);
        if at < before.len() {
            lemma_lex_le_total(before[at as int], version@);
        }
        assert forall|i: int, j: int| 0 <= i <= j < after.len() implies lex_le(
            after[i],
            after[j],
        ) by {
            if i == at && j > at {
                lemma_lex_le_transitive(version@, before[at as int], before[j - 1]);
            } else if i == at && j == at {
                lemma_lex_le_total(version@, version@);
            } else if i < at && j > at {
                assert(lex_le(before[i], before[j - 1]));
            } else if i > at {
                assert(lex_le(before[i - 1], before[j - 1]));
            }
        }
    }
}

/// Lists the installed versions, given the names of the entries of the root.
///
/// `scan` holds the names that a scan of the root found, or is `None` where
/// the root could not be scanned. The listing keeps the names that begin with
/// `R-`, strips that prefix and sorts what is left lexicographically. A name
/// that occurs twice is listed twice.
///
/// # Errors
///
/// `Io` where the root could not be scanned, and only then.
pub fn sc_get_list(scan: Option<&Vec<String>>) -> (listing: Result<Vec<String>, Error>)
    ensures
        match listing {
            Ok(versions) => scan matches Some(entries) && lists(
                texts(versions@),
                texts(entries@),
            ),
            Err(error) => scan is None && error@ == ErrorModel::Io,
        },
{
    let entries = match scan {
        Some(entries) => entries,
        None => {
            return Err(Error::Io);
        },
    };
    let mut versions: Vec<String> = Vec::new();
    let ghost names = texts(entries@);
    assert(names.take(0) =~= Seq::empty());
    assert(texts(versions@) =~= Seq::empty());
    for i in 0..entries.len()
        invariant
            names == texts(entries@),
            sorted(texts(versions@)),
            texts(versions@).to_multiset() == discovered(names.take(i as int)).to_multiset(),
    {
        let name = entries[i].as_str();
        proof {
            assert(names.take(i + 1).drop_last() =~= names.take(i as int));
            assert(names.take(i + 1).last() == name@);
            reveal_strlit("R-");
        }
        if starts_with(name, "R-") {
            let length = name.unicode_len();
            let version = name.substring_char(2, length).to_owned();
            proof {
                assert(name@.subrange(2, length as int) =~= name@.skip(2));
                to_multiset_build(discovered(names.take(i as int)), version@);
            }
            insert_sorted(&mut versions, version);
        }
    }
    assert(names.take(entries.len() as int) =~= names);
    Ok(versions)
}

/// Tests whether `version` is among the installed `versions`.
pub fn is_installed(versions: &Vec<String>, version: &str) -> (found: bool)
    ensures
        found == texts(versions@).contains(version@),
{
    contains_text(versions, version)
}

/// A version is discovered exactly where its directory is among the entries.
pub proof fn lemma_discovered_contains(names: Seq<Seq<char>>, version: Seq<char>)
    ensures
        discovered(names).contains(version) <==> names.contains(dir_name(version)),
    decreases names.len(),
{
    reveal_strlit("R-");
    assert("R-"@ =~= dir_name(version).subrange(0, 2));
    assert(dir_name(version).skip(2) =~= version);
    if names.len() > 0 {
        let rest = names.drop_last();
        let last = names.last();
        lemma_discovered_contains(rest, version);
        if is_install_dir(last) {
            assert(last =~= dir_name(last.skip(2)));
        }
        if discovered(names).contains(version) {
            let i = choose|i: int| 0 <= i < discovered(names).len() && discovered(names)[i] == version;
            if is_install_dir(last) && i == discovered(rest).len() {
                assert(names[names.len() - 1] == dir_name(version));
            } else {
                assert(discovered(rest)[i] == version);
                let k = choose|k: int| 0 <= k < rest.len() && rest[k] == dir_name(version);
                assert(names[k] == dir_name(version));
            }
        }
        if names.contains(dir_name(version)) {
            let k = choose|k: int| 0 <= k < names.len() && names[k] == dir_name(version);
            if k < rest.len() {
                assert(rest[k] == dir_name(version));
                let i = choose|i: int| 0 <= i < discovered(rest).len() && discovered(rest)[i] == version;
                assert(discovered(names)[i] == version);
            } else {
                assert(discovered(names)[discovered(rest).len() as int] == version);
            }
        }
    }
}

/// Entries with different names give different versions.
proof fn lemma_discovered_distinct(names: Seq<Seq<char>>)
    requires
        names.no_duplicates(),
    ensures
        discovered(names).no_duplicates(),
    decreases names.len(),
{
    if names.len() > 0 {
        let rest = names.drop_last();
        let last = names.last();
        lemma_discovered_distinct(rest);
        if is_install_dir(last) {
            reveal_strlit("R-");
            assert(last =~= dir_name(last.skip(2)));
            lemma_discovered_contains(rest, last.skip(2));
            if rest.contains(last) {
                let k = choose|k: int| 0 <= k < rest.len() && rest[k] == last;
                assert(names[k] == names[names.len() - 1]);
            }
        }
    }
}

/// Every installed version has exactly one directory in the root: a version
/// is listed where the root holds the directory that bears its name, and,
/// as no two entries of a directory bear the same name, it is listed once.
pub proof fn law_one_listing_per_directory(listing: Seq<Seq<char>>, names: Seq<Seq<char>>)
    requires
        lists(listing, names),
        names.no_duplicates(),
    ensures
        listing.no_duplicates(),
        forall|version: Seq<char>|
            listing.contains(version) <==> names.contains(dir_name(version)),
{
    lemma_discovered_distinct(names);
    discovered(names).lemma_multiset_has_no_duplicates();
    listing.lemma_multiset_has_no_duplicates_conv();
    assert forall|version: Seq<char>|
        listing.contains(version) <==> names.contains(dir_name(version)) by {
        lemma_discovered_contains(names, version);
        to_multiset_contains(listing, version);
        to_multiset_contains(discovered(names), version);
    }
}

/// Adding the directory of `version` to the entries of the root adds
/// `version` to the registry, once, and changes nothing else.
pub proof fn lemma_listing_after_install(
    names: Seq<Seq<char>>,
    before: Seq<Seq<char>>,
    after: Seq<Seq<char>>,
    version: Seq<char>,
)
    requires
        lists(before, names),
        lists(after, names.push(dir_name(version))),
    ensures
        after.to_multiset() == before.to_multiset().insert(version),
        forall|v: Seq<char>| after.contains(v) <==> before.contains(v) || v == version,
{
    reveal_strlit("R-");
    let added = names.push(dir_name(version));
    assert(added.drop_last() =~= names);
    assert("R-"@ =~= dir_name(version).subrange(0, 2));
    assert(dir_name(version).skip(2) =~= version);
    to_multiset_build(discovered(names), version);
    assert forall|v: Seq<char>| after.contains(v) <==> before.contains(v) || v == version by {
        to_multiset_contains(after, v);
        to_multiset_contains(before, v);
    }
}

/// An installed version has one directory: two versions that are installed
/// in the same place, or under the same name, are the same version.
pub proof fn law_one_directory_per_version(first: Seq<char>, second: Seq<char>)
    ensures
        install_path(first) == install_path(second) <==> first == second,
        dir_name(first) == dir_name(second) <==> first == second,
{
    let root = R_ROOT@ + "\\R-"@;
    assert(first =~= install_path(first).skip(root.len() as int));
    assert(second =~= install_path(second).skip(root.len() as int));
    assert(first =~= dir_name(first).skip("R-"@.len() as int));
    assert(second =~= dir_name(second).skip("R-"@.len() as int));
}

/// Two sorted lists that hold the same versions equally often are equal.
pub proof fn lemma_sorted_unique(first: Seq<Seq<char>>, second: Seq<Seq<char>>)
    requires
        sorted(first),
        sorted(second),
        first.to_multiset() == second.to_multiset(),
    ensures
        first == second,
    decreases first.len(),
{
    to_multiset_len(first);
    to_multiset_len(second);
    if first.len() > 0 {
        assert(first.contains(first[0]));
        assert(second.contains(second[0]));
        to_multiset_contains(first, first[0]);
        to_multiset_contains(first, second[0]);
        to_multiset_contains(second, first[0]);
        to_multiset_contains(second, second[0]);
        let j = choose|j: int| 0 <= j < second.len() && second[j] == first[0];
        let k = choose|k: int| 0 <= k < first.len() && first[k] == second[0];
        assert(lex_le(second[0], second[j]));
        assert(lex_le(first[0], first[k]));
        lemma_lex_le_antisymmetric(first[0], second[0]);
        to_multiset_remove(first, 0);
        to_multiset_remove(second, 0);
        assert(first.remove(0) =~= first.drop_first());
        assert(second.remove(0) =~= second.drop_first());
        assert(sorted(first.drop_first())) by {
            assert forall|a: int, b: int| 0 <= a <= b < first.drop_first().len() implies lex_le(
                first.drop_first()[a],
                first.drop_first()[b],
            ) by {
                assert(lex_le(first[a + 1], first[b + 1]));
            }
        }
        assert(sorted(second.drop_first())) by {
            assert forall|a: int, b: int| 0 <= a <= b < second.drop_first().len() implies lex_le(
                second.drop_first()[a],
                second.drop_first()[b],
            ) by {
                assert(lex_le(second[a + 1], second[b + 1]));
            }
        }
        lemma_sorted_unique(first.drop_first(), second.drop_first());
        assert(first =~= seq![first[0]] + first.drop_first());
        assert(second =~= seq![second[0]] + second.drop_first());
    } else {
        assert(first =~= second);
    }
}

/// The entries of a root give one registry only: any two listings of them
/// are the same list.
pub proof fn law_listing_unique(
    first: Seq<Seq<char>>,
    second: Seq<Seq<char>>,
    names: Seq<Seq<char>>,
)
    requires
        lists(first, names),
        lists(second, names),
    ensures
        first == second,
{
    lemma_sorted_unique(first, second);
}

} // verus!
