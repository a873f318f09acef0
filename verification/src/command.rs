//! The command lines of the two listing tools.

use vstd::prelude::*;
use vstd::string::StringExecFns;

verus! {

/// Name of the repository directory inside the home directory. The home
/// directory itself is the work-tree.
pub const GIT_DIR_NAME: &'static str = "dotfiles";

/// The words of the directory listing command: the program, then the
/// option that marks directories with a trailing separator.
pub open spec fn directory_listing_words() -> Seq<Seq<char>> {
    seq!["ls"@, "-p"@]
}

/// The words of the tracked-path listing command: the program, where the
/// repository and its work-tree are, and the request for the names of all
/// files of the current snapshot, recursively.
pub open spec fn tracked_listing_words(git_dir: Seq<char>, work_tree: Seq<char>) -> Seq<
    Seq<char>,
> {
    seq![
        "git"@,
        "--git-dir="@ + git_dir,
        "--work-tree="@ + work_tree,
        "ls-tree"@,
        "--name-only"@,
        "-r"@,
        "HEAD"@,
    ]
}

/// Builds the command that lists the entries of a directory.
pub fn directory_listing_command() -> (command: Vec<String>)
    ensures
        command.deep_view() == directory_listing_words(),
{
    let mut command: Vec<String> = Vec::new();
    command.push(String::from_str("ls"));
    command.push(String::from_str("-p"));
    assert(command.deep_view() == directory_listing_words());
    command
}

/// Builds the command that lists the tracked paths of the repository at
/// `git_dir` with the work-tree `work_tree`.
pub fn tracked_listing_command(git_dir: &str, work_tree: &str) -> (command: Vec<String>)
    ensures
        command.deep_view() == tracked_listing_words(git_dir@, work_tree@),
{
    let mut repository = String::from_str("--git-dir=");
    repository.append(git_dir);
    let mut tree = String::from_str("--work-tree=");
    tree.append(work_tree);
    let mut command: Vec<String> = Vec::new();
    command.push(String::from_str("git"));
    command.push(repository);
    command.push(tree);
    command.push(String::from_str("ls-tree"));
    command.push(String::from_str("--name-only"));
    command.push(String::from_str("-r"));
    command.push(String::from_str("HEAD"));
    assert(command.deep_view() == tracked_listing_words(git_dir@, work_tree@));
    command
}

} // verus!
