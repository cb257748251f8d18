//! Where the archives of retired log files are kept.

use crate::Config;
use vstd::prelude::*;

verus! {

/// `dirs::data_local_dir` names the directory that the platform keeps for
/// the local data of the user, where it keeps one. The path is handed out
/// as text, with a replacement character for what is no Unicode in it. It
/// depends on the platform and on the environment, and nothing is stated
/// of it.
#[verifier::external_body]
fn platform_data_dir() -> (dir: Option<String>) {
    dirs::data_local_dir().map(|path| path.to_string_lossy().into_owned())
}

/// What an optional text stands for.
pub open spec fn dir_view(dir: Option<String>) -> Option<Seq<char>> {
    match dir {
        Some(d) => Some(d@),
        None => None,
    }
}

/// What a path stands for: the names of its levels, outermost first.
pub open spec fn path_view(path: Seq<String>) -> Seq<Seq<char>> {
    Seq::new(path.len(), |i: int| path[i]@)
}

/// The directory of the archives, as a path from its outermost level. The
/// directory that the configuration names comes first. Without one, the
/// archives go to `loggit/archives` below the directory of the platform for
/// local data, and below the directory for temporary files where the
/// platform has none.
pub open spec fn archive_dir_of(
    configured: Option<Seq<char>>,
    platform: Option<Seq<char>>,
    temp_dir: Seq<char>,
) -> Seq<Seq<char>> {
    match configured {
        Some(dir) => seq![dir],
        None => seq![
            match platform {
                Some(dir) => dir,
                None => temp_dir,
            },
            "loggit"@,
            "archives"@,
        ],
    }
}

/// The directory of the archives for a directory of the platform that is
/// given.
pub fn archive_dir_from(configured: &Option<String>, platform: Option<String>, temp_dir: &str) -> (path:
    Vec<String>)
    ensures
        path_view(path@) == archive_dir_of(dir_view(*configured), dir_view(platform), temp_dir@),
{
    let mut path: Vec<String> = Vec::new();
    match configured {
        Some(dir) => {
            path.push(dir.clone());
            assert(path_view(path@) =~= seq![dir@]);
        },
        None => {
            let base = match platform {
                Some(dir) => dir,
                None => String::from_str(temp_dir),
            };
            let ghost root = base@;
            path.push(base);
            path.push(String::from_str("loggit"));
            path.push(String::from_str("archives"));
            assert(path_view(path@) =~= seq![root, "loggit"@, "archives"@]);
        },
    }
    path
}

/// The directory of the archives of a configuration on this platform.
/// `temp_dir` is the directory for temporary files.
pub fn default_archive_dir(config: &Config, temp_dir: &str) -> (path: Vec<String>)
    ensures
        exists|platform: Option<Seq<char>>|
            path_view(path@) == #[trigger] archive_dir_of(
                config@.archive_dir,
                platform,
                temp_dir@,
            ),
        config@.archive_dir is Some ==> path_view(path@) == seq![config@.archive_dir->0],
{
    let platform = platform_data_dir();
    let path = archive_dir_from(&config.archive_dir, platform, temp_dir);
    assert(path_view(path@) == archive_dir_of(
        config@.archive_dir,
        dir_view(platform),
        temp_dir@,
    ));
    path
}

} // verus!
