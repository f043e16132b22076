//! The generated launcher scripts in the `bin` directory of the root.
//!
//! Every installed version has a launcher `R-<version>.bat` of one line, which
//! runs that version and forwards its arguments. The default version has one
//! more script, `R.bat`: its first line is the comment `::<version>`, its
//! second line the launcher line of that version. Scripts are only ever
//! written whole; refreshing the launchers never deletes a script.

use vstd::prelude::*;
use vstd::string::*;

use crate::error::{Error, ErrorModel};
use crate::registry::{dir_name, lists, R_ROOT};
use crate::text::chars_of;

verus! {

/// A script to write: the path of the file and all that it holds.
#[derive(Debug, PartialEq, Eq)]
pub struct Script {
    pub path: String,
    pub content: String,
}

impl View for Script {
    type V = (Seq<char>, Seq<char>);

    open spec fn view(&self) -> (Seq<char>, Seq<char>) {
        (self.path@, self.content@)
    }
}

/// The line that runs `version` with the arguments of the caller.
pub open spec fn launcher_line(version: Seq<char>) -> Seq<char> {
    "@\"C:\\Program Files\\R\\R-"@ + version + "\\bin\\R\" %*\n"@
}

/// Where the launcher of `version` lies.
pub open spec fn launcher_path(version: Seq<char>) -> Seq<char> {
    R_ROOT@ + "\\bin\\R-"@ + version + ".bat"@
}

/// The launcher of `version`, as path and content.
pub open spec fn launcher_of(version: Seq<char>) -> (Seq<char>, Seq<char>) {
    (launcher_path(version), launcher_line(version))
}

/// Where the script of the default version lies.
pub open spec fn default_path() -> Seq<char> {
    R_ROOT@ + "\\bin\\R.bat"@
}

/// What the script of the default version holds when `version` is the default.
pub open spec fn default_script(version: Seq<char>) -> Seq<char> {
    "::"@ + version + "\n"@ + launcher_line(version)
}

/// The number of characters of `text` before its first line feed, or its
/// length where it holds none.
pub open spec fn line_end(text: Seq<char>) -> int
    decreases text.len(),
{
    if text.len() == 0 || text[0] == '\n' {
        0
    } else {
        1 + line_end(text.drop_first())
    }
}

/// The first line of `text`, without the line feed that ends it and without a
/// carriage return just before that line feed.
pub open spec fn first_line(text: Seq<char>) -> Seq<char> {
    let end = line_end(text);
    if 0 < end < text.len() && text[end - 1] == '\r' {
        text.take(end - 1)
    } else {
        text.take(end)
    }
}

/// The default version that a script records, where `script` is what the file
/// holds, or `None` where there is no such file.
pub open spec fn default_of(script: Option<Seq<char>>) -> Result<Seq<char>, ErrorModel> {
    match script {
        None => Err(ErrorModel::NotConfigured),
        Some(text) => if "::"@.is_prefix_of(first_line(text)) {
            Ok(first_line(text).skip(2))
        } else {
            Err(ErrorModel::MalformedState)
        },
    }
}

/// The characters of an optional script.
pub open spec fn option_script(script: Option<&str>) -> Option<Seq<char>> {
    match script {
        Some(text) => Some(text@),
        None => None,
    }
}

/// The files of the `bin` directory, by path, after the launchers of
/// `versions` were written over `files` one after the other.
pub open spec fn refreshed(files: Map<Seq<char>, Seq<char>>, versions: Seq<Seq<char>>) -> Map<
    Seq<char>,
    Seq<char>,
>
    decreases versions.len(),
{
    if versions.len() == 0 {
        files
    } else {
        refreshed(files, versions.drop_last()).insert(
            launcher_path(versions.last()),
            launcher_line(versions.last()),
        )
    }
}

/// Builds the line that runs `version`.
fn launcher_content(version: &str) -> (line: String)
    ensures
        line@ == launcher_line(version@),
{
    let mut line = String::from_str("@\"C:\\Program Files\\R\\R-");
    line.append(version);
    line.append("\\bin\\R\" %*\n");
    line
}

/// Builds the launchers of the installed versions, one for each entry of
/// `versions` and in the same order. Writing them refreshes the launchers.
pub fn sc_system_make_links(versions: &Vec<String>) -> (links: Vec<Script>)
    ensures
        links@.len() == versions@.len(),
        forall|i: int| 0 <= i < links@.len() ==> links@[i]@ == launcher_of(#[trigger] versions@[i]@),
{
    let mut links: Vec<Script> = Vec::new();
    for i in 0..versions.len()
        invariant
            links@.len() == i,
            forall|j: int| 0 <= j < i ==> links@[j]@ == launcher_of(#[trigger] versions@[j]@),
    {
        let version = versions[i].as_str();
        let mut path = String::from_str(R_ROOT);
        path.append("\\bin\\R-");
        path.append(version);
        path.append(".bat");
        links.push(Script { path, content: launcher_content(version) });
    }
    links
}

/// Builds the path of the script of the default version. There is one such
/// path, so there is at most one default.
pub fn default_link() -> (path: String)
    ensures
        path@ == default_path(),
{
    let mut path = String::from_str(R_ROOT);
    path.append("\\bin\\R.bat");
    path
}

/// Builds the script that makes `version` the default. The version need not
/// be installed.
pub fn sc_set_default(version: &str) -> (script: Script)
    ensures
        script@ == (default_path(), default_script(version@)),
{
    let path = default_link();
    let mut content = String::from_str("::");
    content.append(version);
    content.append("\n");
    content.append(launcher_content(version).as_str());
    assert(content@ =~= default_script(version@));
    Script { path, content }
}

/// Where `text` has no line feed before index `end`, and ends or has a line
/// feed there, its first line ends at `end`.
proof fn lemma_line_end(text: Seq<char>, end: int)
    requires
        0 <= end <= text.len(),
        forall|j: int| 0 <= j < end ==> text[j] != '\n',
        end == text.len() || text[end] == '\n',
    ensures
        line_end(text) == end,
    decreases end,
{
    if end > 0 {
        assert(text[0] != '\n');
        lemma_line_end(text.drop_first(), end - 1);
    }
}

/// Reads the default version off the script that records it.
///
/// `script` is what the file holds, or `None` where it does not exist. The
/// version is the first line without its leading `::`. The line ends before
/// the first line feed, and before a carriage return that precedes it.
///
/// # Errors
///
/// `NotConfigured` where there is no script; `MalformedState` where its first
/// line does not begin with `::`, which includes an empty file.
pub fn sc_get_default(script: Option<&str>) -> (version: Result<String, Error>)
    ensures
        match version {
            Ok(v) => default_of(option_script(script)) == Ok::<Seq<char>, ErrorModel>(v@),
            Err(e) => default_of(option_script(script)) == Err::<Seq<char>, ErrorModel>(e@),
        },
{
    let text = match script {
        Some(text) => text,
        None => {
            return Err(Error::NotConfigured);
        },
    };
    let chars = chars_of(text);
    let mut end: usize = 0;
    while end < chars.len() && chars[end] != '\n'
        invariant
            end <= chars.len(),
            forall|j: int| 0 <= j < end ==> chars@[j] != '\n',
        decreases chars.len() - end,
    {
        end += 1;
    }
    proof {
        lemma_line_end(text@, end as int);
        reveal_strlit("::");
    }
    let stop = if 0 < end && end < chars.len() && chars[end - 1] == '\r' {
        end - 1
    } else {
        end
    };
    assert(first_line(text@) == text@.take(stop as int));
    if stop >= 2 && chars[0] == ':' && chars[1] == ':' {
        assert("::"@ =~= first_line(text@).subrange(0, 2));
        assert(text@.subrange(2, stop as int) =~= first_line(text@).skip(2));
        Ok(text.substring_char(2, stop).to_owned())
    } else {
        assert(!"::"@.is_prefix_of(first_line(text@))) by {
            if stop >= 2 {
                assert(first_line(text@).subrange(0, 2)[0] == chars@[0]);
                assert(first_line(text@).subrange(0, 2)[1] == chars@[1]);
            }
        }
        Err(Error::MalformedState)
    }
}

/// Setting a default and reading it back gives the version that was set, for
/// every version that holds no line feed and does not end in a carriage
/// return.
pub proof fn law_default_round_trip(version: Seq<char>)
    requires
        !version.contains('\n'),
        version.len() == 0 || version.last() != '\r',
    ensures
        default_of(Some(default_script(version))) == Ok::<Seq<char>, ErrorModel>(version),
{
    reveal_strlit("::");
    reveal_strlit("\n");
    let text = default_script(version);
    let end = 2 + version.len() as int;
    assert forall|j: int| 0 <= j < end implies text[j] != '\n' by {
        if j >= 2 {
            assert(text[j] == version[j - 2]);
            assert(version.contains(version[j - 2]));
        }
    }
    assert(text[end] == '\n');
    lemma_line_end(text, end);
    assert(text[end - 1] != '\r') by {
        if version.len() > 0 {
            assert(text[end - 1] == version.last());
        }
    }
    assert(first_line(text) =~= "::"@ + version);
    assert(first_line(text).subrange(0, 2) =~= "::"@);
    assert(first_line(text).skip(2) =~= version);
}

/// What a refresh leaves in the `bin` directory: every file that was there,
/// and the launcher of each version, which holds the line of that version.
pub proof fn lemma_refreshed(files: Map<Seq<char>, Seq<char>>, versions: Seq<Seq<char>>)
    ensures
        forall|path: Seq<char>|
            refreshed(files, versions).dom().contains(path) <==> files.dom().contains(path) || (
            exists|i: int| 0 <= i < versions.len() && path == launcher_path(#[trigger] versions[i])),
        forall|i: int|
            0 <= i < versions.len() ==> refreshed(files, versions)[launcher_path(
                #[trigger] versions[i],
            )] == launcher_line(versions[i]),
    decreases versions.len(),
{
    if versions.len() > 0 {
        let rest = versions.drop_last();
        lemma_refreshed(files, rest);
        lemma_launcher_path_injective();
        assert forall|path: Seq<char>|
            refreshed(files, versions).dom().contains(path) <==> files.dom().contains(path) || (
            exists|i: int|
                0 <= i < versions.len() && path == launcher_path(#[trigger] versions[i])) by {
            if refreshed(files, versions).dom().contains(path) && !files.dom().contains(path) {
                if path == launcher_path(versions.last()) {
                    assert(path == launcher_path(versions[versions.len() - 1]));
                } else {
                    let i = choose|i: int|
                        0 <= i < rest.len() && path == launcher_path(#[trigger] rest[i]);
                    assert(path == launcher_path(versions[i]));
                }
            }
            if exists|i: int|
                0 <= i < versions.len() && path == launcher_path(#[trigger] versions[i]) {
                let i = choose|i: int|
                    0 <= i < versions.len() && path == launcher_path(#[trigger] versions[i]);
                if i < rest.len() {
                    assert(path == launcher_path(rest[i]));
                }
            }
        }
        assert forall|i: int| 0 <= i < versions.len() implies refreshed(
            files,
            versions,
        )[launcher_path(#[trigger] versions[i])] == launcher_line(versions[i]) by {
            if i < rest.len() {
                assert(versions[i] == rest[i]);
                if launcher_path(versions[i]) == launcher_path(versions.last()) {
                    assert(versions[i] == versions.last());
                }
            }
        }
    }
}

/// Two versions with the same launcher path are the same version.
pub proof fn lemma_launcher_path_injective()
    ensures
        forall|a: Seq<char>, b: Seq<char>|
            #[trigger] launcher_path(a) == #[trigger] launcher_path(b) ==> a == b,
{
    assert forall|a: Seq<char>, b: Seq<char>|
        #[trigger] launcher_path(a) == #[trigger] launcher_path(b) implies a == b by {
        let head = R_ROOT@ + "\\bin\\R-"@;
        let tail = ".bat"@;
        assert(launcher_path(a).len() == head.len() + a.len() + tail.len());
        assert(launcher_path(b).len() == head.len() + b.len() + tail.len());
        assert(a =~= launcher_path(a).subrange(head.len() as int, head.len() as int + a.len()));
        assert(b =~= launcher_path(b).subrange(head.len() as int, head.len() as int + b.len()));
    }
}

/// An installed version has one launcher, and no launcher is the script of
/// the default version: a refresh never touches the default, and setting the
/// default never touches a launcher.
pub proof fn law_one_launcher_per_version(first: Seq<char>, second: Seq<char>)
    ensures
        launcher_path(first) == launcher_path(second) <==> first == second,
        launcher_path(first) != default_path(),
{
    lemma_launcher_path_injective();
    reveal_strlit("\\bin\\R-");
    reveal_strlit("\\bin\\R.bat");
    let at = R_ROOT@.len() as int + 6;
    assert(launcher_path(first)[at] == '-');
    assert(default_path()[at] == '.');
}

/// Refreshing the launchers after one version was installed adds exactly one
/// file to the `bin` directory, the launcher of that version, and removes
/// none.
///
/// `before` and `after` are the registries before and after the directory of
/// `version` was added to the entries `names` of the root. The law holds of a
/// `bin` directory that held the launcher of each version of `before`, as a
/// refresh leaves it, and no stale launcher of `version`.
pub proof fn law_refresh_after_install(
    files: Map<Seq<char>, Seq<char>>,
    names: Seq<Seq<char>>,
    before: Seq<Seq<char>>,
    after: Seq<Seq<char>>,
    version: Seq<char>,
)
    requires
        lists(before, names),
        lists(after, names.push(dir_name(version))),
        forall|i: int| 0 <= i < before.len() ==> files.dom().contains(launcher_path(before[i])),
        !files.dom().contains(launcher_path(version)),
    ensures
        refreshed(files, after).dom() == files.dom().insert(launcher_path(version)),
        files.dom().subset_of(refreshed(files, after).dom()),
        refreshed(files, after)[launcher_path(version)] == launcher_line(version),
        forall|i: int|
            0 <= i < before.len() ==> refreshed(files, after)[launcher_path(#[trigger] before[i])]
                == launcher_line(before[i]),
{
    crate::registry::lemma_listing_after_install(names, before, after, version);
    lemma_refreshed(files, after);
    let new = refreshed(files, after).dom();
    assert(after.contains(version));
    let i_new = choose|i: int| 0 <= i < after.len() && after[i] == version;
    assert forall|path: Seq<char>| new.contains(path) <==> files.dom().insert(
        launcher_path(version),
    ).contains(path) by {
        if new.contains(path) && !files.dom().contains(path) {
            let i = choose|i: int|
                0 <= i < after.len() && path == launcher_path(#[trigger] after[i]);
            assert(after.contains(after[i]));
            if after[i] != version {
                assert(before.contains(after[i]));
            }
        }
        if path == launcher_path(version) {
            assert(path == launcher_path(after[i_new]));
        }
    }
    assert(new =~= files.dom().insert(launcher_path(version)));
    assert(refreshed(files, after)[launcher_path(after[i_new])] == launcher_line(after[i_new]));
    assert forall|i: int| 0 <= i < before.len() implies refreshed(files, after)[launcher_path(
        #[trigger] before[i],
    )] == launcher_line(before[i]) by {
        assert(before.contains(before[i]));
        assert(after.contains(before[i]));
        let k = choose|k: int| 0 <= k < after.len() && after[k] == before[i];
        assert(after[k] == before[i]);
        assert(refreshed(files, after)[launcher_path(after[k])] == launcher_line(after[k]));
    }
}

} // verus!
