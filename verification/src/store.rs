//! A tiny content-addressed version store: `init` creates the store, and
//! `commit <file>` saves the file under the hash of its contents and records
//! that hash as the head.

use std::hash::{Hash, Hasher};
use vstd::prelude::*;
use crate::text::{
    chars_eq_str, decimal, decimal_string, push_decimal, string_from, to_lowercase,
    unicode_lowercase,
};

verus! {

/// What the command line asks for.
#[derive(Debug)]
pub enum GitCommand {
    Init,
    Commit(String),
    Unknown,
}

/// The abstract value of a `GitCommand`.
pub enum GitCommandView {
    Init,
    Commit(Seq<char>),
    Unknown,
}

impl View for GitCommand {
    type V = GitCommandView;

    open spec fn view(&self) -> GitCommandView {
        match self {
            GitCommand::Init => GitCommandView::Init,
            GitCommand::Commit(f) => GitCommandView::Commit(f@),
            GitCommand::Unknown => GitCommandView::Unknown,
        }
    }
}

/// The command, and whether a `commit` lacked its file name (the user is
/// told so, and the command is `Unknown`).
pub struct CommandLine {
    pub command: GitCommand,
    pub missing_file_name: bool,
}

/// The command that the command line `args` asks for, given its second word
/// in lower case (`keyword`).
pub open spec fn command_spec(keyword: Seq<char>, args: Seq<Seq<char>>) -> (GitCommandView, bool) {
    if keyword == "init"@ {
        (GitCommandView::Init, false)
    } else if keyword == "commit"@ {
        if args.len() == 3 {
            (GitCommandView::Commit(args[2]), false)
        } else {
            (GitCommandView::Unknown, true)
        }
    } else {
        (GitCommandView::Unknown, false)
    }
}

/// What `parse_command` returns for the command line `args`.
pub open spec fn parse_command_spec(args: Seq<Seq<char>>) -> (GitCommandView, bool) {
    if args.len() < 2 {
        (GitCommandView::Unknown, false)
    } else {
        command_spec(unicode_lowercase(args[1]), args)
    }
}

/// Decides the command from the second word of the command line, already in
/// lower case.
pub fn command_from_keyword(keyword: &str, args: &Vec<String>) -> (r: CommandLine)
    ensures
        (r.command@, r.missing_file_name) == command_spec(keyword@, args.deep_view()),
{
    if chars_eq_str(&crate::text::chars_of(keyword), "init") {
        CommandLine { command: GitCommand::Init, missing_file_name: false }
    } else if chars_eq_str(&crate::text::chars_of(keyword), "commit") {
        if args.len() == 3 {
            proof {
                assert(args.deep_view()[2] == args@[2]@);
            }
            CommandLine { command: GitCommand::Commit(args[2].clone()), missing_file_name: false }
        } else {
            CommandLine { command: GitCommand::Unknown, missing_file_name: true }
        }
    } else {
        CommandLine { command: GitCommand::Unknown, missing_file_name: false }
    }
}

/// Reads the command line: `init`, or `commit <file>`, the command word in
/// any case.
pub fn parse_command(args: &Vec<String>) -> (r: CommandLine)
    ensures
        (r.command@, r.missing_file_name) == parse_command_spec(args.deep_view()),
{
    if args.len() < 2 {
        return CommandLine { command: GitCommand::Unknown, missing_file_name: false };
    }
    proof {
        assert(args.deep_view()[1] == args@[1]@);
    }
    let keyword = to_lowercase(args[1].as_str());
    command_from_keyword(keyword.as_str(), args)
}

/// `commit` with a file name commits exactly that file name, unchanged: only
/// the command word is read case-insensitively.
pub proof fn law_commit_keeps_file_name(args: Seq<Seq<char>>)
    requires
        args.len() == 3,
        unicode_lowercase(args[1]) == "commit"@,
    ensures
        parse_command_spec(args) == (GitCommandView::Commit(args[2]), false),
{
    broadcast use vstd::string::group_string_axioms;

    reveal_strlit("init");
    reveal_strlit("commit");
    assert("init"@.len() == 4);
    assert("commit"@.len() == 6);
}

/// `commit` without exactly one file name commits nothing and reports the
/// missing name.
pub proof fn law_commit_needs_one_name(args: Seq<Seq<char>>)
    requires
        args.len() >= 2,
        args.len() != 3,
        unicode_lowercase(args[1]) == "commit"@,
    ensures
        parse_command_spec(args) == (GitCommandView::Unknown, true),
{
    broadcast use vstd::string::group_string_axioms;

    reveal_strlit("init");
    reveal_strlit("commit");
    assert("init"@.len() == 4);
    assert("commit"@.len() == 6);
}

/// `init`, in any case, asks to create the store; a command line with fewer
/// than two words, or whose second word is neither `init` nor `commit` in any
/// case, is unknown and reports nothing missing.
pub proof fn law_other_command_lines(args: Seq<Seq<char>>)
    ensures
        args.len() >= 2 && unicode_lowercase(args[1]) == "init"@ ==> parse_command_spec(args) == (
            GitCommandView::Init,
            false,
        ),
        args.len() < 2 ==> parse_command_spec(args) == (GitCommandView::Unknown, false),
        args.len() >= 2 && unicode_lowercase(args[1]) != "init"@ && unicode_lowercase(args[1])
            != "commit"@ ==> parse_command_spec(args) == (GitCommandView::Unknown, false),
{
}

/// What `DefaultHasher::new()` finishes with after hashing a string of these
/// characters.
pub uninterp spec fn default_hash(data: Seq<char>) -> u64;

/// Hashes `data` with `std::collections::hash_map::DefaultHasher::new()`
/// (`str::hash`, then `finish`). Every hasher made by `new` is the same, so
/// the result is named as a function of the characters; which function it
/// is, std leaves open.
#[verifier::external_body]
fn hash_contents(data: &str) -> (r: u64)
    ensures
        r == default_hash(data@),
{
    let mut hasher = std::collections::hash_map::DefaultHasher::new();
    data.hash(&mut hasher);
    hasher.finish()
}

/// Where a commit puts things: the object file, named by the content hash,
/// and the head file, which holds that hash in decimal.
pub struct CommitPlan {
    pub file_id: u64,
    pub object_path: String,
    pub head_path: String,
    pub head_contents: String,
}

/// The object path of the content with hash `id`.
pub open spec fn object_path(id: u64) -> Seq<char> {
    ".rustgit/objects/"@ + decimal(id as nat)
}

/// The commit plan for content with hash `id`.
pub fn plan_for_id(file_id: u64) -> (r: CommitPlan)
    ensures
        r.file_id == file_id,
        r.object_path@ == object_path(file_id),
        r.head_path@ == ".rustgit/HEAD"@,
        r.head_contents@ == decimal(file_id as nat),
{
    let mut object_path = string_from(".rustgit/objects/");
    push_decimal(&mut object_path, file_id);
    CommitPlan {
        file_id,
        object_path,
        head_path: string_from(".rustgit/HEAD"),
        head_contents: decimal_string(file_id),
    }
}

/// The commit plan for a file with contents `data`.
pub fn plan_commit(data: &str) -> (r: CommitPlan)
    ensures
        r.file_id == default_hash(data@),
        r.object_path@ == object_path(default_hash(data@)),
        r.head_path@ == ".rustgit/HEAD"@,
        r.head_contents@ == decimal(default_hash(data@) as nat),
{
    let id = hash_contents(data);
    plan_for_id(id)
}

/// Two commits of the same contents write the same object.
pub proof fn law_same_contents_same_object(a: Seq<char>, b: Seq<char>)
    requires
        a == b,
    ensures
        object_path(default_hash(a)) == object_path(default_hash(b)),
{
}

/// Different hashes give different object paths: no commit overwrites the
/// object of other contents unless their hashes collide.
pub proof fn law_distinct_ids_distinct_objects(x: u64, y: u64)
    requires
        x != y,
    ensures
        object_path(x) != object_path(y),
{
    lemma_decimal_injective(x as nat, y as nat);
    if object_path(x) == object_path(y) {
        let p = ".rustgit/objects/"@;
        assert(decimal(x as nat) =~= object_path(x).skip(p.len() as int));
        assert(decimal(y as nat) =~= object_path(y).skip(p.len() as int));
    }
}

proof fn lemma_decimal_nonempty(n: nat)
    ensures
        decimal(n).len() >= 1,
    decreases n,
{
    if n >= 10 {
        lemma_decimal_nonempty(n / 10);
    }
}

proof fn lemma_decimal_injective(x: nat, y: nat)
    ensures
        decimal(x) == decimal(y) ==> x == y,
    decreases x + y,
{
    if decimal(x) == decimal(y) {
        lemma_decimal_nonempty(x / 10);
        lemma_decimal_nonempty(y / 10);
        if x < 10 && y < 10 {
            assert(decimal(x)[0] == decimal(y)[0]);
        } else if x >= 10 && y >= 10 {
            assert(decimal(x).last() == decimal(y).last());
            assert(decimal(x).drop_last() == decimal(x / 10));
            assert(decimal(y).drop_last() == decimal(y / 10));
            lemma_decimal_injective(x / 10, y / 10);
        } else if x < 10 {
            assert(decimal(x).len() == 1);
            assert(decimal(y).len() == decimal(y / 10).len() + 1);
        } else {
            assert(decimal(y).len() == 1);
            assert(decimal(x).len() == decimal(x / 10).len() + 1);
        }
    }
}

} // verus!
