use asg::git_times::Commit;
use asg::git_times::get_git_creation_time;
use asg::git_times::get_git_modification_time;
use asg::git_times::parse_commits;
use asg::git_times::rest_after_space;

#[test]
fn test_parse_commit() {
    let commit_test = "commit c06dc8bcc5bb323a062265860cd861f7fcb95381
Author: Mr. A
Date:   Sat Feb 22 13:44:40 2025 +0100

    :bug: fix bug

commit b8ddad3380286ab14590f0c9443d6abb52969766
Author: Mr. A
Date:   Sun Feb 9 15:08:19 2025 +0100

    :bug: todo

commit 338e1177c3e4be94756d7be8b75e64ece72d6837
Author: Mr. B
Date:   Wed Nov 13 17:59:13 2024 +0100

    :memo: docs

commit 670d2faeca08c98d1768cca2c75425f3ee4ae6b8
Author: Mr. A
Date:   Fri Nov 1 22:58:48 2024 +0100

    :tada: implement feature
";
    let commits = parse_commits(commit_test);
    assert_eq!(commits.len(), 4);
    assert_eq!(commits[0].hash, "c06dc8bcc5bb323a062265860cd861f7fcb95381");
    assert_eq!(commits[0].author, "Mr. A");
    assert_eq!(commits[0].date, "Sat Feb 22 13:44:40 2025 +0100");
    assert_eq!(commits[0].message, ":bug: fix bug");
}

#[test]
fn rest_after_space_takes_trimmed_tail() {
    assert_eq!(rest_after_space("Author: Mr. A"), "Mr. A");
    assert_eq!(rest_after_space("Date:   Sat Feb 22 13:44:40 2025 +0100"), "Sat Feb 22 13:44:40 2025 +0100");
    assert_eq!(rest_after_space("nospace"), "");
    assert_eq!(rest_after_space("word tail with  spaces "), "tail with  spaces");
}

#[test]
fn history_times_pick_newest_and_oldest() {
    let mk = |date: &str| Commit {
        hash: String::new(),
        message: String::new(),
        author: String::new(),
        date: date.to_string(),
    };
    let blame = vec![mk("newest"), mk("middle"), mk("oldest")];
    assert_eq!(get_git_modification_time(&blame).unwrap(), "newest");
    assert_eq!(get_git_creation_time(&blame).unwrap(), "oldest");

    let empty: Vec<Commit> = Vec::new();
    assert!(get_git_modification_time(&empty).is_none());
    assert!(get_git_creation_time(&empty).is_none());
}

#[test]
fn multiline_messages_concatenate_trimmed() {
    let text = "commit abc
Author: A
Date: d

    line one
    line two

";
    let commits = parse_commits(text);
    assert_eq!(commits.len(), 1);
    assert_eq!(commits[0].message, "line oneline two");
}
