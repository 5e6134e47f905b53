//! The text of the commands that a deployment runs, on the remote host and
//! in the local project.

use crate::preflight::Check;
use vstd::prelude::*;

verus! {

/// Tests whether the directory `output_path` exists on the remote host.
pub open spec fn probe_command(output_path: Seq<char>) -> Seq<char> {
    "cd / && [ -d "@ + output_path + " ]"@
}

/// Creates the directory `output_path` and what is missing above it.
pub open spec fn mkdir_command(output_path: Seq<char>) -> Seq<char> {
    "mkdir -p "@ + output_path
}

/// Copies the archive from the history store into the output directory.
pub open spec fn copy_command(
    history_path: Seq<char>,
    output_path: Seq<char>,
    archive: Seq<char>,
) -> Seq<char> {
    "cp "@ + history_path + "/"@ + archive + " "@ + output_path + "/"@ + archive
}

/// Each of `words` with a blank before it.
pub open spec fn spaced(words: Seq<Seq<char>>) -> Seq<char>
    decreases words.len(),
{
    if words.len() == 0 {
        Seq::empty()
    } else {
        spaced(words.drop_last()) + " "@ + words.last()
    }
}

/// Unpacks the archive in the output directory, removes the copy of the
/// archive and opens the unpacked directories `dirs` for reading.
pub open spec fn extract_command(
    output_path: Seq<char>,
    archive: Seq<char>,
    dirs: Seq<Seq<char>>,
) -> Seq<char> {
    "cd "@ + output_path + " && unzip -o "@ + archive + " && rm "@ + archive
        + " && chmod -R 755"@ + spaced(dirs)
}

/// Where the archive lies in the history store.
pub open spec fn remote_archive_path(history_path: Seq<char>, archive: Seq<char>) -> Seq<char> {
    history_path + "/"@ + archive
}

/// The program that queries the local repository.
pub open spec fn check_program() -> Seq<char> {
    "git"@
}

/// The arguments of the query that `check` makes.
pub open spec fn check_arguments(check: Check) -> Seq<Seq<char>> {
    match check {
        Check::Branch => seq!["branch"@, "--show-current"@],
        Check::WorkingTree => seq!["status"@, "--porcelain"@],
        Check::Upstream => seq!["rev-list"@, "@{u}..HEAD"@],
    }
}

/// The program that builds the project.
pub open spec fn build_program() -> Seq<char> {
    "pnpm"@
}

/// The arguments with which the build script `script` is run.
pub open spec fn build_arguments(script: Seq<char>) -> Seq<Seq<char>> {
    seq!["run"@, script]
}

/// The command that tests whether `output_path` exists.
pub fn probe(output_path: &str) -> (command: String)
    ensures
        command@ == probe_command(output_path@),
{
    let mut command = String::from_str("cd / && [ -d ");
    command.append(output_path);
    command.append(" ]");
    command
}

/// The command that creates `output_path`.
pub fn mkdir(output_path: &str) -> (command: String)
    ensures
        command@ == mkdir_command(output_path@),
{
    let mut command = String::from_str("mkdir -p ");
    command.append(output_path);
    command
}

/// The command that copies `archive` from `history_path` to `output_path`.
pub fn copy(history_path: &str, output_path: &str, archive: &str) -> (command: String)
    ensures
        command@ == copy_command(history_path@, output_path@, archive@),
{
    let mut command = String::from_str("cp ");
    command.append(history_path);
    command.append("/");
    command.append(archive);
    command.append(" ");
    command.append(output_path);
    command.append("/");
    command.append(archive);
    command
}

/// The command that unpacks `archive` in `output_path`.
pub fn extract(output_path: &str, archive: &str, dirs: &Vec<String>) -> (command: String)
    ensures
        command@ == extract_command(output_path@, archive@, dirs.deep_view()),
{
    let mut command = String::from_str("cd ");
    command.append(output_path);
    command.append(" && unzip -o ");
    command.append(archive);
    command.append(" && rm ");
    command.append(archive);
    command.append(" && chmod -R 755");
    let ghost head = command@;
    let mut i: usize = 0;
    assert(dirs.deep_view().take(0) =~= Seq::<Seq<char>>::empty());
    assert(head + Seq::<char>::empty() =~= head);
    while i < dirs.len()
        invariant
            i <= dirs.len(),
            command@ == head + spaced(dirs.deep_view().take(i as int)),
        decreases dirs.len() - i,
    {
        proof {
            let done = dirs.deep_view().take(i + 1);
            assert(done.drop_last() =~= dirs.deep_view().take(i as int));
            assert(done.last() == dirs[i as int]@);
            assert(head + (spaced(done.drop_last()) + " "@ + done.last()) =~= head + spaced(
                done.drop_last(),
            ) + " "@ + done.last());
        }
        command.append(" ");
        command.append(dirs[i].as_str());
        i = i + 1;
    }
    assert(dirs.deep_view().take(i as int) =~= dirs.deep_view());
    command
}

/// Where `archive` lies below `history_path`.
pub fn archive_path(history_path: &str, archive: &str) -> (path: String)
    ensures
        path@ == remote_archive_path(history_path@, archive@),
{
    let mut path = String::from_str(history_path);
    path.append("/");
    path.append(archive);
    path
}

/// The arguments of the query that `check` makes.
pub fn check_args(check: Check) -> (args: Vec<String>)
    ensures
        args.deep_view() == check_arguments(check),
{
    let mut args: Vec<String> = Vec::new();
    match check {
        Check::Branch => {
            args.push(String::from_str("branch"));
            args.push(String::from_str("--show-current"));
        },
        Check::WorkingTree => {
            args.push(String::from_str("status"));
            args.push(String::from_str("--porcelain"));
        },
        Check::Upstream => {
            args.push(String::from_str("rev-list"));
            args.push(String::from_str("@{u}..HEAD"));
        },
    }
    assert(args.deep_view() =~= check_arguments(check));
    args
}

/// The arguments with which the build script `script` is run.
pub fn build_args(script: &str) -> (args: Vec<String>)
    ensures
        args.deep_view() == build_arguments(script@),
{
    let mut args: Vec<String> = Vec::new();
    args.push(String::from_str("run"));
    args.push(String::from_str(script));
    assert(args.deep_view() =~= build_arguments(script@));
    args
}

} // verus!
