//! Directories as the downstream cache wants them: relative to the mount.

use std::path::Path;
use vstd::prelude::*;
use vstd::string::StringExecFns;

verus! {

/// What `std::path::Path::strip_prefix` makes of `directory` and `base`,
/// both read as paths by the rules of the platform the library is built for:
/// the rest of `directory` below `base`, or `None` where `base` is no prefix
/// of it.  Only whole components count for a prefix.  The name has no
/// definition: what the standard library computes is not restated here.
pub uninterp spec fn stripped_prefix(directory: Seq<char>, base: Seq<char>) -> Option<Seq<char>>;

/// The text of an optional string.
pub open spec fn text(value: Option<String>) -> Option<Seq<char>> {
    match value {
        Some(s) => Some(s@),
        None => None,
    }
}

/// The directory to name downstream, given what stripping the mount from
/// `directory` left: the rest, `/` where nothing is left, and `directory`
/// itself where it does not lie under the mount.
pub open spec fn relative_directory(stripped: Option<Seq<char>>, directory: Seq<char>) -> Seq<char> {
    match stripped {
        Some(rest) => if rest.len() == 0 {
            seq!['/']
        } else {
            rest
        },
        None => directory,
    }
}

/// The directory to name downstream for a torrent stored at `directory` when
/// the downstream root is `mount`.  A directory that is not valid text is
/// answered with `/`, which covers everything.
pub open spec fn normalized(mount: Seq<char>, directory: Option<Seq<char>>) -> Seq<char> {
    match directory {
        Some(d) => relative_directory(stripped_prefix(d, mount), d),
        None => seq!['/'],
    }
}

/// Whether a torrent stored at `directory` lies outside `mount`, so that its
/// directory is passed on unchanged.
pub open spec fn outside_mount(mount: Seq<char>, directory: Option<Seq<char>>) -> bool {
    match directory {
        Some(d) => stripped_prefix(d, mount) is None,
        None => false,
    }
}

/// Calls `Path::strip_prefix` on two paths given as text.  Trusted: the
/// outcome depends on the two texts alone.  The rest that the call returns
/// is a piece of `directory`, so it is valid text and is handed back as such;
/// its error, which carries nothing, becomes `None`.
#[verifier::external_body]
pub(crate) fn strip_prefix(directory: &str, base: &str) -> (rest: Option<String>)
    ensures
        text(rest) == stripped_prefix(directory@, base@),
{
    match Path::new(directory).strip_prefix(base) {
        Ok(rest) => rest.to_str().map(str::to_owned),
        Err(_) => None,
    }
}

/// The root directory, which stands for the whole mount.
pub(crate) fn root() -> (slash: String)
    ensures
        slash@ == seq!['/'],
{
    proof {
        reveal_strlit("/");
    }
    let slash = String::from_str("/");
    assert(slash@ =~= seq!['/']);
    slash
}

/// Chooses the directory to name downstream once the mount has been stripped
/// from `torrent_directory`, `stripped` being what was left.
pub fn relative_directory_from(stripped: Option<String>, torrent_directory: &str) -> (relative: String)
    ensures
        relative@ == relative_directory(text(stripped), torrent_directory@),
{
    match stripped {
        Some(rest) => if rest.as_str().is_empty() {
            root()
        } else {
            rest
        },
        None => torrent_directory.to_owned(),
    }
}

/// Expresses `torrent_directory` relative to `mount_directory`.
///
/// A directory below the mount loses the mount's prefix, the mount itself
/// becomes `/`, and a directory elsewhere is returned as it is.
pub fn get_relative_directory(mount_directory: &str, torrent_directory: &str) -> (relative: String)
    ensures
        relative@ == relative_directory(
            stripped_prefix(torrent_directory@, mount_directory@),
            torrent_directory@,
        ),
{
    let stripped = strip_prefix(torrent_directory, mount_directory);
    relative_directory_from(stripped, torrent_directory)
}

} // verus!
