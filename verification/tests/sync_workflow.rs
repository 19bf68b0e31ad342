use clippy_core::command::{classify_output, CommandResult, ScriptedRunner};
use clippy_core::sync::{git_pull, git_push, parent_dir};

#[test]
fn classification_keeps_raw_stdout_on_success() {
    match classify_output(true, String::from(" out \n"), String::from("ignored")) {
        CommandResult::Success(s) => assert_eq!(s, " out \n"),
        _ => panic!("expected a success"),
    }
}

#[test]
fn classification_combines_and_trims_on_failure() {
    match classify_output(false, String::from("out\n"), String::from(" err \n")) {
        CommandResult::Failure(s) => assert_eq!(s, "out\n err"),
        _ => panic!("expected a failure"),
    }
}

fn ok(s: &str) -> CommandResult {
    CommandResult::Success(String::from(s))
}

fn fail(s: &str) -> CommandResult {
    CommandResult::Failure(String::from(s))
}

fn runner(results: Vec<CommandResult>) -> ScriptedRunner {
    ScriptedRunner::new(results)
}

#[test]
fn parent_of_paths() {
    assert_eq!(parent_dir(&String::from("/repo/bookmarks.json")), Some(String::from("/repo")));
    assert_eq!(parent_dir(&String::from("/bookmarks.json")), Some(String::from("/")));
    assert_eq!(parent_dir(&String::from("bookmarks.json")), None);
    // The root has no parent, and trailing separators are ignored.
    assert_eq!(parent_dir(&String::from("/")), None);
    assert_eq!(parent_dir(&String::from("")), None);
    assert_eq!(parent_dir(&String::from("/repo/")), Some(String::from("/")));
    assert_eq!(parent_dir(&String::from("/a/b/")), Some(String::from("/a")));
}

#[test]
fn backup_and_refresh_refuse_the_root_path() {
    let mut r = runner(vec![ok("M x\n")]);
    let res = git_push(&mut r, &String::from("/"));
    assert_eq!(res, Err(String::from("Invalid workspace file path")));
    assert_eq!(r.remaining(), 1, "no git command may run for the root path");
    let res = git_pull(&mut r, &String::from("/"));
    assert_eq!(res, Err(String::from("Invalid workspace file path")));
    assert_eq!(r.remaining(), 1);
}

#[test]
fn backup_invalid_path() {
    let mut r = runner(vec![ok("M x\n")]);
    let res = git_push(&mut r, &String::from("bookmarks.json"));
    assert_eq!(res, Err(String::from("Invalid workspace file path")));
    assert_eq!(r.remaining(), 1, "no git command may run on an invalid path");
}

#[test]
fn backup_nothing_to_commit() {
    // An empty porcelain status means no pending changes; add, commit and
    // push must not be invoked, so the three extra scripted results stay.
    let mut r = runner(vec![ok("   \n"), ok(""), ok(""), ok("")]);
    let res = git_push(&mut r, &String::from("/repo/bookmarks.json"));
    assert_eq!(res, Err(String::from("No changes to commit.")));
    assert_eq!(r.remaining(), 3);
}

#[test]
fn backup_not_a_repository() {
    let mut r = runner(vec![fail("fatal: not a git repository")]);
    let res = git_push(&mut r, &String::from("/repo/bookmarks.json"));
    let err = res.unwrap_err();
    assert_eq!(
        err,
        String::from("git status failed — is this a git repository?\nfatal: not a git repository")
    );
    assert_eq!(r.remaining(), 0);
}

#[test]
fn backup_spawn_failure_is_distinct() {
    let mut r = runner(vec![CommandResult::SpawnFailed(String::from("No such file or directory"))]);
    let res = git_push(&mut r, &String::from("/repo/bookmarks.json"));
    let err = res.unwrap_err();
    assert!(err.contains("Failed to run git: No such file or directory"), "got: {}", err);
}

#[test]
fn backup_commit_failure_short_circuits_push() {
    let mut r = runner(vec![ok("M x\n"), ok(""), fail("nothing added"), ok("")]);
    let res = git_push(&mut r, &String::from("/repo/bookmarks.json"));
    assert_eq!(res, Err(String::from("git commit failed:\nnothing added")));
    assert_eq!(r.remaining(), 1, "push must not run after a failed commit");
}

fn is_timestamp_shape(s: &str) -> bool {
    let b = s.as_bytes();
    b.len() == 19
        && b.iter().enumerate().all(|(i, c)| match i {
            4 | 7 => *c == b'-',
            10 => *c == b' ',
            13 | 16 => *c == b':',
            _ => c.is_ascii_digit(),
        })
}

#[test]
fn backup_success_message_embeds_timestamp() {
    let mut r = runner(vec![ok("M bookmarks.json\n"), ok(""), ok("[main] commit\n"), ok("")]);
    let res = git_push(&mut r, &String::from("/repo/bookmarks.json"));
    let msg = res.unwrap();
    assert!(msg.starts_with("Bookmarks backed up successfully ("), "got: {}", msg);
    assert!(msg.ends_with(')'), "got: {}", msg);
    let inner = &msg["Bookmarks backed up successfully (".len()..msg.len() - 1];
    assert!(is_timestamp_shape(inner), "not a timestamp: {}", inner);
    assert_eq!(r.remaining(), 0);
}

#[test]
fn refresh_returns_trimmed_pull_output() {
    let mut r = runner(vec![ok("On branch main\n"), ok("Already up to date.\n")]);
    let res = git_pull(&mut r, &String::from("/repo/bookmarks.json"));
    assert_eq!(res, Ok(String::from("Already up to date.")));
}

#[test]
fn refresh_twice_without_new_commits_succeeds_twice() {
    let mut r = runner(vec![
        ok("On branch main\n"),
        ok("Already up to date.\n"),
        ok("On branch main\n"),
        ok("Already up to date.\n"),
    ]);
    let first = git_pull(&mut r, &String::from("/repo/bookmarks.json"));
    let second = git_pull(&mut r, &String::from("/repo/bookmarks.json"));
    assert_eq!(first, Ok(String::from("Already up to date.")));
    assert_eq!(second, Ok(String::from("Already up to date.")));
}

#[test]
fn refresh_not_a_repository() {
    let mut r = runner(vec![fail("fatal: not a git repository")]);
    let res = git_pull(&mut r, &String::from("/repo/bookmarks.json"));
    assert_eq!(res, Err(String::from("Not a git repository:\nfatal: not a git repository")));
}

#[test]
fn refresh_surfaces_pull_conflict() {
    let mut r = runner(vec![ok("On branch main\n"), fail("fatal: Not possible to fast-forward")]);
    let res = git_pull(&mut r, &String::from("/repo/bookmarks.json"));
    assert_eq!(res, Err(String::from("git pull failed:\nfatal: Not possible to fast-forward")));
}
