use swal_files::files_git::branch::{
    parse_branch_listing, parse_upstream_track, BranchCreateOptions, CheckoutOptions, GitBranchError,
    GitBranchManager,
};
use swal_files::files_git::commit::{
    parse_commit_stats, CommitBuilder, FollowUp, GitCommitError, GitStageOperator, Signature, StageOperation,
};
use swal_files::files_git::detector::{
    build_upstream_string, is_valid_sha1, parse_all_packed_refs, parse_git_config_upstreams, parse_gitdir_file,
    parse_packed_refs, repo_root_step, BranchResolver, BranchType, HeadState, RepoState, RootSearch,
};
use swal_files::files_git::diff::{diff_counters_fit_exec, DiffError, GitDiffParser, LineType, SideBySideLineType};
use swal_files::files_git::stash::{parse_stash_list, GitStashError, GitStashManager, StashEntry};
use swal_files::files_git::status::{parse_porcelain_v1, parse_porcelain_v2, porcelain_v1_input_ok, GitStatusKind};

fn chars(s: &str) -> Vec<char> {
    s.chars().collect()
}

// ---------------------------------------------------------------- branches

#[test]
fn test_branch_name_validation() {
    let mgr = GitBranchManager::new();
    assert!(mgr.validate_branch_name("main").is_ok());
    assert!(mgr.validate_branch_name("feature/login").is_ok());
    assert!(mgr.validate_branch_name("").is_err());
    assert!(mgr.validate_branch_name("-invalid").is_err());
    assert!(mgr.validate_branch_name("feat..name").is_err());
    assert!(mgr.validate_branch_name("test.lock").is_err());
}

#[test]
fn test_errors_and_helpers() {
    assert_eq!(parse_upstream_track("[ahead 3, behind 2]"), (3, 2));
    assert_eq!(parse_upstream_track(""), (0, 0));
    assert_eq!(parse_upstream_track("[behind 7]"), (0, 7));
}

#[test]
fn test_checkout_create_validation() {
    let mgr = GitBranchManager::new();
    let err = mgr.checkout_args(&CheckoutOptions::new("invalid..name").create_if_missing(true));
    assert!(matches!(err, Err(GitBranchError::InvalidBranchName(_))));
}

#[test]
fn branch_command_arguments() {
    let mgr = GitBranchManager::new();
    let args = mgr.create_args(&BranchCreateOptions::new("dev").track(true)).unwrap();
    assert_eq!(args, vec!["branch", "--track", "dev"]);
    let args = mgr.checkout_args(&CheckoutOptions::new("dev").force(true)).unwrap();
    assert_eq!(args, vec!["checkout", "--force", "dev"]);
    let args = mgr
        .checkout_args(&CheckoutOptions::new("new").create_if_missing(true).start_point("main"))
        .unwrap();
    assert_eq!(args, vec!["checkout", "-b", "new", "main"]);
    assert_eq!(mgr.list_args()[0], "for-each-ref");
}

#[test]
fn branch_listing_and_delete_current() {
    let out = "*|refs/heads/main|abc123|origin/main|[ahead 1]\n |refs/heads/dev|def456||\n |refs/remotes/origin/main|abc123||\n";
    let branches = parse_branch_listing(out);
    assert_eq!(branches.len(), 3);
    assert_eq!(branches[0].name, "main");
    assert!(branches[0].is_head);
    assert_eq!(branches[0].upstream, Some("origin/main".to_string()));
    assert_eq!(branches[0].ahead, 1);
    assert!(branches[2].is_remote);
    let mgr = GitBranchManager::new();
    assert!(matches!(
        mgr.delete_args(&branches, "main", false),
        Err(GitBranchError::CannotDeleteCurrentBranch(_))
    ));
    assert_eq!(mgr.delete_args(&branches, "dev", true).unwrap(), vec!["branch", "-D", "dev"]);
}

#[test]
fn branch_error_messages() {
    assert_eq!(GitBranchError::BranchNotFound("x".into()).to_string(), "Branch not found: 'x'");
    assert_eq!(
        GitBranchError::GitCommandFailed { code: Some(-1), stderr: "boom".into() }.to_string(),
        "Git failed (Some(-1)): boom"
    );
}

// ---------------------------------------------------------------- stash

#[test]
fn test_parse_stash_list() {
    let sample = "stash@{0}: On main: custom msg\nstash@{1}: WIP on feat: 1234abc init";
    let list = parse_stash_list(sample);
    assert_eq!(list.len(), 2);
    assert_eq!(
        list[0],
        StashEntry { index: 0, name: "stash@{0}".into(), branch: "main".into(), message: "custom msg".into() }
    );
    assert_eq!(
        list[1],
        StashEntry { index: 1, name: "stash@{1}".into(), branch: "feat".into(), message: "1234abc init".into() }
    );
}

#[test]
fn stash_outcomes() {
    let mgr = GitStashManager::new();
    assert_eq!(mgr.push_args(Some("msg"), true), vec!["stash", "push", "--include-untracked", "-m", "msg"]);
    assert!(!mgr.push_saved("No local changes to save\n"));
    assert!(mgr.push_saved("Saved working directory\n"));
    let r = mgr.apply_result(0, true, "CONFLICT (content)", "").unwrap();
    assert!(r.has_conflicts);
    assert!(!r.success);
    assert_eq!(mgr.apply_result(3, false, "", "error: stash@{3} is not a valid reference"), Err(GitStashError::StashNotFound(3)));
    assert_eq!(mgr.drop_failure(2, "fatal: oops"), GitStashError::ExecutionFailed("fatal: oops".into()));
    assert_eq!(GitStashError::StashNotFound(4).to_string(), "Stash @{4} not found");
}

// ---------------------------------------------------------------- commit

#[test]
fn commit_builder_command() {
    let b = CommitBuilder::new()
        .message("  feat: x  ")
        .author(Signature::new("Custom Author", "custom@example.com").with_timestamp(0))
        .amend(true);
    let (args, env) = b.command().unwrap();
    assert_eq!(
        args,
        vec!["commit", "-m", "feat: x", "--amend", "--no-gpg-sign", "--author", "Custom Author <custom@example.com>"]
    );
    assert_eq!(env, vec![("GIT_AUTHOR_DATE".to_string(), "0 +0000".to_string())]);
}

#[test]
fn test_commit_builder_errors() {
    let b = CommitBuilder::new().message("   ");
    assert_eq!(b.command(), Err(GitCommitError::EmptyCommitMessage));
    assert_eq!(GitCommitError::EmptyCommitMessage.to_string(), "Commit message cannot be empty");
}

#[test]
fn commit_result_and_stats() {
    assert_eq!(parse_commit_stats(" 2 files changed, 10 insertions(+), 3 deletions(-)\n"), (2, 10, 3));
    assert_eq!(parse_commit_stats(" 1 file changed, 1 insertion(+)\n"), (1, 1, 0));
    let b = CommitBuilder::new().message("feat: add test file");
    let r = b.result(" 1 file changed, 1 insertion(+)\n", Some("abc123\n"), Some("main\n"));
    assert_eq!(r.commit_hash, "abc123");
    assert_eq!(r.summary, "feat: add test file");
    assert_eq!(r.branch, Some("main".to_string()));
    assert_eq!(r.files_changed, 1);
}

#[test]
fn stage_plans() {
    let op = GitStageOperator::new();
    let (first, then) = op.plan(&StageOperation::UnstagePath("f.txt".into()));
    assert_eq!(first, vec!["restore", "--staged", "--", "f.txt"]);
    assert_eq!(then, FollowUp::OnFailure(vec![
        "rm".to_string(), "--cached".to_string(), "-r".to_string(), "--quiet".to_string(), "--".to_string(), "f.txt".to_string(),
    ]));
    let (first, then) = op.plan(&StageOperation::StageAll);
    assert_eq!(first, vec!["add", "-A"]);
    assert_eq!(then, FollowUp::Nothing);
    assert_eq!(op.failure("  bad  \n"), GitCommitError::GitExecutionFailed("bad".into()));
}

// ---------------------------------------------------------------- diff

#[test]
fn test_empty_diff() {
    let diffs = GitDiffParser::parse("");
    assert!(diffs.is_empty());
}

#[test]
fn test_single_file_unified_diff() {
    let sample = r#"diff --git a/src/main.rs b/src/main.rs
index 1234567..89abcde 100644
--- a/src/main.rs
+++ b/src/main.rs
@@ -1,5 +1,6 @@ fn main()
 fn main() {
-    println!("Hello World");
+    println!("Hello SWAL");
+    println!("New line");
 }
"#;

    let diffs = GitDiffParser::parse(sample);
    assert_eq!(diffs.len(), 1);

    let fd = &diffs[0];
    assert_eq!(fd.old_path.as_deref(), Some("src/main.rs"));
    assert_eq!(fd.new_path.as_deref(), Some("src/main.rs"));
    assert!(!fd.is_binary);
    assert!(!fd.is_new_file);
    assert!(!fd.is_deleted_file);
    assert_eq!(fd.additions, 2);
    assert_eq!(fd.deletions, 1);
    assert_eq!(fd.total_changes(), 3);

    assert_eq!(fd.hunks.len(), 1);
    let hunk = &fd.hunks[0];
    assert_eq!(hunk.header.old_start, 1);
    assert_eq!(hunk.header.old_lines, 5);
    assert_eq!(hunk.header.new_start, 1);
    assert_eq!(hunk.header.new_lines, 6);
    assert_eq!(hunk.header.heading.as_deref(), Some("fn main()"));

    assert_eq!(hunk.lines.len(), 5);
    assert_eq!(hunk.lines[0].line_type, LineType::Context);
    assert_eq!(hunk.lines[0].old_line_number, Some(1));
    assert_eq!(hunk.lines[0].new_line_number, Some(1));

    assert_eq!(hunk.lines[1].line_type, LineType::Deletion);
    assert_eq!(hunk.lines[1].content, "    println!(\"Hello World\");");
    assert_eq!(hunk.lines[1].old_line_number, Some(2));
    assert_eq!(hunk.lines[1].new_line_number, None);

    assert_eq!(hunk.lines[2].line_type, LineType::Addition);
    assert_eq!(hunk.lines[2].content, "    println!(\"Hello SWAL\");");
    assert_eq!(hunk.lines[2].old_line_number, None);
    assert_eq!(hunk.lines[2].new_line_number, Some(2));

    assert_eq!(hunk.lines[3].line_type, LineType::Addition);
    assert_eq!(hunk.lines[3].content, "    println!(\"New line\");");
    assert_eq!(hunk.lines[3].old_line_number, None);
    assert_eq!(hunk.lines[3].new_line_number, Some(3));

    assert_eq!(hunk.lines[4].line_type, LineType::Context);
    assert_eq!(hunk.lines[4].content, "}");
    assert_eq!(hunk.lines[4].old_line_number, Some(3));
    assert_eq!(hunk.lines[4].new_line_number, Some(4));
}

#[test]
fn test_multiple_files_diff() {
    let sample = r#"diff --git a/file1.txt b/file1.txt
--- a/file1.txt
+++ b/file1.txt
@@ -1 +1 @@
-old
+new
diff --git a/file2.txt b/file2.txt
--- a/file2.txt
+++ b/file2.txt
@@ -1 +1 @@
-a
+b
"#;

    let diffs = GitDiffParser::parse(sample);
    assert_eq!(diffs.len(), 2);
    assert_eq!(diffs[0].old_path.as_deref(), Some("file1.txt"));
    assert_eq!(diffs[1].old_path.as_deref(), Some("file2.txt"));
}

#[test]
fn test_new_and_deleted_file() {
    let sample_new = r#"diff --git a/created.txt b/created.txt
new file mode 100644
--- /dev/null
+++ b/created.txt
@@ -0,0 +1,2 @@
+Line 1
+Line 2
"#;

    let diffs = GitDiffParser::parse(sample_new);
    assert_eq!(diffs.len(), 1);
    let fd = &diffs[0];
    assert!(fd.is_new_file);
    assert_eq!(fd.old_path, None);
    assert_eq!(fd.new_path.as_deref(), Some("created.txt"));

    let sample_del = r#"diff --git a/deleted.txt b/deleted.txt
deleted file mode 100644
--- a/deleted.txt
+++ /dev/null
@@ -1,2 +0,0 @@
-Line 1
-Line 2
"#;

    let diffs_del = GitDiffParser::parse(sample_del);
    assert_eq!(diffs_del.len(), 1);
    let fd_del = &diffs_del[0];
    assert!(fd_del.is_deleted_file);
    assert_eq!(fd_del.old_path.as_deref(), Some("deleted.txt"));
    assert_eq!(fd_del.new_path, None);
}

#[test]
fn test_binary_diff() {
    let sample = r#"diff --git a/image.png b/image.png
index 1234..5678 100644
Binary files a/image.png and b/image.png differ
"#;

    let diffs = GitDiffParser::parse(sample);
    assert_eq!(diffs.len(), 1);
    let fd = &diffs[0];
    assert!(fd.is_binary);
    assert_eq!(fd.old_path.as_deref(), Some("image.png"));
    assert_eq!(fd.new_path.as_deref(), Some("image.png"));
}

#[test]
fn test_rename_file() {
    let sample = r#"diff --git a/old_name.txt b/new_name.txt
similarity index 100%
rename from old_name.txt
rename to new_name.txt
"#;

    let diffs = GitDiffParser::parse(sample);
    assert_eq!(diffs.len(), 1);
    let fd = &diffs[0];
    assert!(fd.is_rename);
    assert_eq!(fd.old_path.as_deref(), Some("old_name.txt"));
    assert_eq!(fd.new_path.as_deref(), Some("new_name.txt"));
}

#[test]
fn test_side_by_side_conversion() {
    let sample = r#"diff --git a/test.rs b/test.rs
--- a/test.rs
+++ b/test.rs
@@ -1,3 +1,3 @@
 context
-old_1
-old_2
+new_1
+new_2
+new_3
"#;

    let sbs = GitDiffParser::parse_side_by_side(sample);
    assert_eq!(sbs.len(), 1);
    let sbs_file = &sbs[0];
    assert_eq!(sbs_file.total_changes(), 5);

    let hunk = &sbs_file.hunks[0];
    assert_eq!(hunk.lines.len(), 4);

    assert_eq!(hunk.lines[0].line_type, SideBySideLineType::Equal);
    assert_eq!(hunk.lines[0].left.as_ref().unwrap().content, "context");

    assert_eq!(hunk.lines[1].line_type, SideBySideLineType::Modification);
    assert_eq!(hunk.lines[1].left.as_ref().unwrap().content, "old_1");
    assert_eq!(hunk.lines[1].right.as_ref().unwrap().content, "new_1");

    assert_eq!(hunk.lines[2].line_type, SideBySideLineType::Modification);
    assert_eq!(hunk.lines[2].left.as_ref().unwrap().content, "old_2");
    assert_eq!(hunk.lines[2].right.as_ref().unwrap().content, "new_2");

    assert_eq!(hunk.lines[3].line_type, SideBySideLineType::Addition);
    assert!(hunk.lines[3].left.is_none());
    assert_eq!(hunk.lines[3].right.as_ref().unwrap().content, "new_3");
}

#[test]
fn test_diff_error_display() {
    let err1 = DiffError::ParseError("invalid hunk".to_string());
    assert_eq!(err1.to_string(), "Parse error: invalid hunk");

    let err2 = DiffError::AsyncJoinError("cancelled".to_string());
    assert_eq!(err2.to_string(), "Async task join error: cancelled");
}

#[test]
fn test_no_newline_at_eof() {
    let sample = "diff --git a/a.txt b/a.txt\n--- a/a.txt\n+++ b/a.txt\n@@ -1 +1 @@\n-foo\n\\ No newline at end of file\n+bar\n\\ No newline at end of file\n";

    let diffs = GitDiffParser::parse(sample);
    assert_eq!(diffs.len(), 1);
    let lines = &diffs[0].hunks[0].lines;
    assert_eq!(lines.len(), 4);
    assert_eq!(lines[1].line_type, LineType::Header);
    assert_eq!(lines[1].content, "\\ No newline at end of file");
}

#[test]
fn diff_changes_equal_added_plus_removed_lines() {
    let sample = "diff --git a/x b/x\n--- a/x\n+++ b/x\n@@ -1,2 +1,1 @@\n-a\n-b\n+c\n";
    let diffs = GitDiffParser::parse(sample);
    assert_eq!(diffs[0].additions, 1);
    assert_eq!(diffs[0].deletions, 2);
    let sbs = GitDiffParser::parse_side_by_side(sample);
    assert_eq!(sbs[0].total_changes(), 3);
    assert_eq!(sbs[0].hunks[0].lines[1].line_type, SideBySideLineType::Deletion);
}

// ---------------------------------------------------------------- status

#[test]
fn test_git_status_kind_display() {
    assert_eq!(GitStatusKind::Modified.to_string(), "Modified");
    assert_eq!(GitStatusKind::Untracked.to_string(), "Untracked");
}

#[test]
fn test_parse_porcelain_v2_header_and_files() {
    let sample = "\
# branch.oid 1234567890abcdef1234567890abcdef12345678
# branch.head main
# branch.upstream origin/main
# branch.ab +2 -1
1 .M N... 100644 100644 100644 e69de29bb2d1d6434b8b29ae775ad8c2e48c5391 e69de29bb2d1d6434b8b29ae775ad8c2e48c5391 src/lib.rs
1 M. N... 100644 100644 100644 e69de29bb2d1d6434b8b29ae775ad8c2e48c5391 e69de29bb2d1d6434b8b29ae775ad8c2e48c5391 src/main.rs
2 R. N... 100644 100644 100644 e69de29bb2d1d6434b8b29ae775ad8c2e48c5391 e69de29bb2d1d6434b8b29ae775ad8c2e48c5391 R100 src/new.rs\tsrc/old.rs
u UU N... 100644 100644 100644 100644 e69de29bb2d1d6434b8b29ae775ad8c2e48c5391 e69de29bb2d1d6434b8b29ae775ad8c2e48c5391 e69de29bb2d1d6434b8b29ae775ad8c2e48c5391 src/conflict.rs
? untracked.txt
! ignored.log
";

    let status = parse_porcelain_v2(sample).expect("Should parse v2 output successfully");

    assert_eq!(status.branch.head.as_deref(), Some("main"));
    assert_eq!(status.branch.oid.as_deref(), Some("1234567890abcdef1234567890abcdef12345678"));
    assert_eq!(status.branch.upstream.as_deref(), Some("origin/main"));
    assert_eq!(status.branch.ahead, 2);
    assert_eq!(status.branch.behind, 1);
    assert!(!status.branch.is_detached);

    assert!(!status.is_clean());
    assert_eq!(status.files.len(), 6);

    assert_eq!(status.staged().len(), 2);
    assert_eq!(status.unstaged().len(), 1);
    assert_eq!(status.untracked().len(), 1);
    assert_eq!(status.conflicted().len(), 1);

    let lib_status = status.get_status_for_path("src/lib.rs").expect("lib.rs status");
    assert!(status.get_status_for_path("src//lib.rs").is_some());
    assert!(status.get_status_for_path("src/./lib.rs/").is_some());
    assert!(status.get_status_for_path("/src/lib.rs").is_none());
    assert!(status.get_status_for_path("./src/lib.rs").is_none());
    assert_eq!(lib_status.index_status, GitStatusKind::Unmodified);
    assert_eq!(lib_status.worktree_status, GitStatusKind::Modified);

    let rename_status = status.get_status_for_path("src/new.rs").expect("new.rs status");
    assert_eq!(rename_status.orig_path.as_deref(), Some("src/old.rs"));
}

#[test]
fn test_parse_porcelain_v1() {
    let sample = " M src/lib.rs\nM  src/main.rs\nR  src/new.rs -> src/old.rs\nUU src/conflict.rs\n?? untracked.txt\n!! ignored.log\n";

    let status = parse_porcelain_v1(sample).expect("Should parse v1 output successfully");

    assert_eq!(status.files.len(), 6);
    assert_eq!(status.staged().len(), 2);
    assert_eq!(status.unstaged().len(), 1);
    assert_eq!(status.untracked().len(), 1);
    assert_eq!(status.conflicted().len(), 1);
}

#[test]
fn status_kind_from_char() {
    assert_eq!(GitStatusKind::from_char('M'), GitStatusKind::Modified);
    assert_eq!(GitStatusKind::from_char('?'), GitStatusKind::Untracked);
    assert_eq!(GitStatusKind::from_char('U'), GitStatusKind::Conflicted);
    assert_eq!(GitStatusKind::from_char('Z'), GitStatusKind::Unknown);
}

// ---------------------------------------------------------------- detector

const SHA: &str = "0123456789abcdef0123456789abcdef01234567";

#[test]
fn sha_and_pointer_files() {
    assert!(is_valid_sha1(&chars(SHA)));
    assert!(!is_valid_sha1(&chars("0123")));
    assert_eq!(parse_gitdir_file("gitdir: /repo/.git/worktrees/w\n"), Some("/repo/.git/worktrees/w".to_string()));
    assert_eq!(parse_gitdir_file("nothing here"), None);
}

#[test]
fn packed_refs_lookup() {
    let packed = format!("# pack-refs with: peeled\n{SHA} refs/heads/main\n^{SHA}\n{SHA} refs/tags/v1\n");
    assert_eq!(parse_packed_refs(&packed, "refs/heads/main"), Some(SHA.to_string()));
    assert_eq!(parse_packed_refs(&packed, "refs/heads/none"), None);
    assert_eq!(parse_all_packed_refs(&packed).len(), 2);
}

#[test]
fn config_upstreams() {
    let config = "[core]\n\tbare = false\n[branch \"main\"]\n\tremote = origin\n\tmerge = refs/heads/main\n[branch \"local\"]\n\tremote = .\n\tmerge = refs/heads/main\n";
    let ups = parse_git_config_upstreams(config);
    assert_eq!(ups, vec![
        ("main".to_string(), "origin/main".to_string()),
        ("local".to_string(), "main".to_string()),
    ]);
    assert_eq!(build_upstream_string("up", "feature"), "up/feature");
}

#[test]
fn head_resolution() {
    assert_eq!(BranchResolver::head_ref_path("ref: refs/heads/main\n"), Some("refs/heads/main".to_string()));
    assert_eq!(
        BranchResolver::head_state_from("ref: refs/heads/main\n", Some(SHA.to_string())),
        HeadState::Branch("main".to_string())
    );
    assert_eq!(BranchResolver::head_state_from("ref: refs/heads/new\n", None), HeadState::Unborn("new".to_string()));
    assert_eq!(BranchResolver::head_state_from(SHA, None), HeadState::Detached(SHA.to_string()));
    assert_eq!(BranchResolver::head_state_from("garbage", None), HeadState::Unknown);
    assert_eq!(
        BranchResolver::resolve_ref_from(Some("junk"), Some(&format!("{SHA} refs/heads/x\n")), "refs/heads/x"),
        Some(SHA.to_string())
    );
    assert_eq!(BranchResolver::resolve_ref_from(None, None, "refs/heads/x"), None);
}

#[test]
fn repo_state_markers() {
    assert_eq!(BranchResolver::repo_state_from_markers(false, true, true, false, false, false), RepoState::Rebasing);
    assert_eq!(BranchResolver::repo_state_from_markers(false, false, false, false, true, true), RepoState::Reverting);
    assert_eq!(BranchResolver::repo_state_from_markers(false, false, false, false, false, false), RepoState::Normal);
}

#[test]
fn branch_listing_from_repository_files() {
    let head = HeadState::Branch("main".to_string());
    let ups = vec![("main".to_string(), "origin/main".to_string())];
    let packed = vec![
        ("refs/heads/old".to_string(), SHA.to_string()),
        ("refs/heads/main".to_string(), SHA.to_string()),
    ];
    let local = vec![("refs/heads/main".to_string(), "main".to_string(), Some(SHA.to_string()))];
    let remote = vec![
        ("refs/remotes/origin/main".to_string(), "origin/main".to_string(), None),
        ("refs/remotes/origin/HEAD".to_string(), "origin/HEAD".to_string(), None),
    ];
    let list = BranchResolver::list_branches_from(&head, &ups, &packed, &local, &remote);
    let names: Vec<&str> = list.iter().map(|b| b.name.as_str()).collect();
    assert_eq!(names, vec!["main", "old", "origin/main"]);
    assert!(list[0].is_head);
    assert_eq!(list[0].upstream, Some("origin/main".to_string()));
    assert_eq!(list[2].branch_type, BranchType::Remote);
}

#[test]
fn diff_counter_check_accepts_and_refuses() {
    let ok = "diff --git a/f b/f\n--- a/f\n+++ b/f\n@@ -1,2 +1,2 @@\n a\n-b\n+c\n";
    assert!(diff_counters_fit_exec(ok));
    assert!(diff_counters_fit_exec(""));
    let big = format!("diff --git a/f b/f\n@@ -{} +1 @@\n a\n", usize::MAX);
    assert!(!diff_counters_fit_exec(&big));
    let hunk_without_file = format!("@@ -{} +1 @@\n a\n", usize::MAX);
    assert!(diff_counters_fit_exec(&hunk_without_file));
}

#[test]
fn repo_root_walk_steps() {
    assert_eq!(repo_root_step("/home/u/proj", true, true), RootSearch::Found { root: "/home/u/proj".to_string(), bare: false });
    assert_eq!(repo_root_step("/srv/repo.git", false, true), RootSearch::Found { root: "/srv/repo.git".to_string(), bare: true });
    assert_eq!(repo_root_step("/home/u/proj/src", false, false), RootSearch::Continue("/home/u/proj".to_string()));
    assert_eq!(repo_root_step("/home", false, false), RootSearch::Continue("/".to_string()));
    assert_eq!(repo_root_step("/", false, false), RootSearch::NotFound);
}

#[test]
fn porcelain_v1_boundary_check() {
    assert!(porcelain_v1_input_ok(" M src/lib.rs\n?? x\n"));
    assert!(porcelain_v1_input_ok(""));
    assert!(porcelain_v1_input_ok("é file"));
    assert!(!porcelain_v1_input_ok("aé file"));
}
