//! Where settings live below a home directory.

use vstd::prelude::*;
use crate::text::texts;

verus! {

/// The editor's settings file of the user.
pub open spec fn user_settings(home: Seq<char>) -> Seq<char> {
    home + "/Library/Application Support/Code/User/settings.json"@
}

/// The directories in which projects are looked for.
pub open spec fn project_roots(home: Seq<char>) -> Seq<Seq<char>> {
    seq![
        home + "/Desktop"@,
        home + "/Documents"@,
        home + "/Projects"@,
        home + "/workspace"@,
        home + "/dev"@,
    ]
}

/// The stand-alone configuration files.
pub open spec fn copilot_configs(home: Seq<char>) -> Seq<Seq<char>> {
    seq![
        home + "/.config/github-copilot/hosts.json"@,
        home + "/.gitconfig"@,
        home + "/Library/Application Support/Code/User/globalStorage/github.copilot"@,
    ]
}

/// The path of the editor's settings file of the user whose home is `home`.
pub fn user_settings_path(home: &str) -> (r: String)
    ensures
        r@ == user_settings(home@),
{
    String::from_str(home).concat("/Library/Application Support/Code/User/settings.json")
}

/// The directories below `home` whose subdirectories may hold a project with
/// settings of its own.
pub fn workspace_roots(home: &str) -> (r: Vec<String>)
    ensures
        texts(r@) == project_roots(home@),
{
    let mut paths: Vec<String> = Vec::new();
    paths.push(String::from_str(home).concat("/Desktop"));
    paths.push(String::from_str(home).concat("/Documents"));
    paths.push(String::from_str(home).concat("/Projects"));
    paths.push(String::from_str(home).concat("/workspace"));
    paths.push(String::from_str(home).concat("/dev"));
    assert(texts(paths@) =~= project_roots(home@));
    paths
}

/// The paths of the stand-alone configuration files below `home`.
pub fn get_copilot_config_paths(home: &str) -> (r: Vec<String>)
    ensures
        texts(r@) == copilot_configs(home@),
{
    let mut paths: Vec<String> = Vec::new();
    paths.push(String::from_str(home).concat("/.config/github-copilot/hosts.json"));
    paths.push(String::from_str(home).concat("/.gitconfig"));
    paths.push(
        String::from_str(home).concat(
            "/Library/Application Support/Code/User/globalStorage/github.copilot",
        ),
    );
    assert(texts(paths@) =~= copilot_configs(home@));
    paths
}

} // verus!
