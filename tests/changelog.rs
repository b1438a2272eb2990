use changelog::cli::Format;
use changelog::conf;
use changelog::grammar::parse_subject;
use changelog::parser::{
    classify, label_of, release_at, tag_index, Changelog, Classification, Commit, CommitError,
    CommitRecord, History, Marker, Repository, RepositoryError, Tag,
};

fn s(x: &str) -> String {
    String::from(x)
}

fn kinds() -> Vec<(String, String)> {
    vec![(s("fix"), s("Bug Fixes")), (s("feat"), s("Features"))]
}

fn repo_conf(name: &str, link: Option<&str>) -> conf::Repository {
    conf::Repository {
        name: s(name),
        path: s("."),
        scopes: Some(vec![s("api")]),
        range: None,
        link: link.map(s),
    }
}

fn record(id: &str, summary: &str, seconds: i64) -> CommitRecord {
    CommitRecord {
        id: s(id),
        author: Some(s("alice")),
        committer: Some(s("bob")),
        summary: Some(s(summary)),
        message: Some(format!("{}\n\nbody", summary)),
        seconds,
    }
}

fn annotated(name: &str, target: &str) -> Marker {
    Marker { name: s(name), target: Some(s(target)) }
}

fn lightweight(name: &str) -> Marker {
    Marker { name: s(name), target: None }
}

fn groups(tag: &Tag) -> Vec<(String, Vec<String>)> {
    tag.commits
        .iter()
        .map(|(label, commits)| (label.clone(), commits.iter().map(|c| c.message.clone()).collect()))
        .collect()
}

fn group(label: &str, messages: &[&str]) -> (String, Vec<String>) {
    (s(label), messages.iter().map(|m| s(m)).collect())
}

const C1: &str = "1111111aaaaaaaaaaaaaaaaaaaaaaaaaaaaaaaaa";
const C2: &str = "2222222bbbbbbbbbbbbbbbbbbbbbbbbbbbbbbbbb";
const C3: &str = "3333333ccccccccccccccccccccccccccccccccc";
const C4: &str = "4444444ddddddddddddddddddddddddddddddddd";

#[test]
fn subject_with_scope() {
    let sub = parse_subject("feat(api): add X").unwrap();
    assert_eq!(sub.kind, "feat");
    assert_eq!(sub.scope, Some(s("api")));
}

#[test]
fn subject_without_scope() {
    let sub = parse_subject("fix: crash on exit").unwrap();
    assert_eq!(sub.kind, "fix");
    assert_eq!(sub.scope, None);
}

#[test]
fn subject_kind_may_hold_spaces() {
    let sub = parse_subject("see feat: x").unwrap();
    assert_eq!(sub.kind, "see feat");
}

#[test]
fn subject_found_after_other_characters() {
    assert!(parse_subject("[wip] fix(ui,core): align").is_none());
    let sub = parse_subject("[wip] fix: align").unwrap();
    assert_eq!(sub.kind, " fix");
    assert_eq!(sub.scope, None);
    let sub = parse_subject("!fix(ui): align").unwrap();
    assert_eq!(sub.kind, "fix");
    assert_eq!(sub.scope, Some(s("ui")));
}

#[test]
fn subject_that_does_not_parse() {
    assert!(parse_subject("fix crash").is_none());
    assert!(parse_subject("fix:crash").is_none());
    assert!(parse_subject("fix: ").is_none());
    assert!(parse_subject("").is_none());
    assert!(parse_subject("(api): x").is_none());
}

#[test]
fn subject_with_unicode_word_characters() {
    let sub = parse_subject("feat(é): ajouté").unwrap();
    assert_eq!(sub.kind, "feat");
    assert_eq!(sub.scope, Some(s("é")));
    assert!(parse_subject("feat→: x").is_none());
}

#[test]
fn classify_feature_with_scope() {
    match classify(&kinds(), &s("feat(api): add X")) {
        Classification::Accepted(label) => assert_eq!(label, "Features"),
        other => panic!("unexpected {:?}", other),
    }
}

#[test]
fn classify_merge_commits() {
    assert!(matches!(classify(&kinds(), &s("Merge branch 'main'")), Classification::Merge));
    assert!(matches!(
        classify(&kinds(), &s("Merge pull request #4 from x/y")),
        Classification::Merge
    ));
    assert!(matches!(classify(&kinds(), &s("Merge branch: fix: x")), Classification::Merge));
}

#[test]
fn classify_rejections() {
    assert!(matches!(classify(&kinds(), &s("update readme")), Classification::Unparseable));
    assert!(matches!(classify(&kinds(), &s("docs: readme")), Classification::UnknownKind));
}

#[test]
fn first_label_wins() {
    let ks = vec![(s("fix"), s("A")), (s("fix"), s("B"))];
    assert_eq!(label_of(&ks, &s("fix")), Some(s("A")));
    assert_eq!(label_of(&ks, &s("feat")), None);
}

#[test]
fn commit_fields() {
    let c = Commit::try_from(&repo_conf("r", None), &record(C1, "feat: a", 0)).unwrap();
    assert_eq!(c.hash, "1111111");
    assert_eq!(c.message, "feat: a");
    assert_eq!(c.author, "alice");
    assert_eq!(c.date, "1970-01-01");
    assert_eq!(c.link, None);
}

#[test]
fn commit_date_in_utc() {
    let c = Commit::try_from(&repo_conf("r", None), &record(C1, "feat: a", 1_500_000_000)).unwrap();
    assert_eq!(c.date, "2017-07-14");
    let c = Commit::try_from(&repo_conf("r", None), &record(C1, "feat: a", 86_399)).unwrap();
    assert_eq!(c.date, "1970-01-01");
    let c = Commit::try_from(&repo_conf("r", None), &record(C1, "feat: a", -1)).unwrap();
    assert_eq!(c.date, "1969-12-31");
}

#[test]
fn commit_link_uses_full_hash() {
    let conf = repo_conf("r", Some("https://example.org/commit/{hash}"));
    let c = Commit::try_from(&conf, &record(C1, "feat: a", 0)).unwrap();
    assert_eq!(c.link, Some(format!("https://example.org/commit/{}", C1)));
    assert_eq!(c.hash, "1111111");
}

#[test]
fn commit_link_format_error() {
    let conf = repo_conf("r", Some("https://example.org/{nope}"));
    let r = Commit::try_from(&conf, &record(C1, "feat: a", 0));
    assert!(matches!(r, Err(CommitError::LinkFormat)));
}

#[test]
fn commit_author_falls_back_to_committer() {
    let mut r = record(C1, "feat: a", 0);
    r.author = None;
    let c = Commit::try_from(&repo_conf("r", None), &r).unwrap();
    assert_eq!(c.author, "bob");
}

#[test]
fn commit_missing_author() {
    let mut r = record(C1, "feat: a", 0);
    r.author = None;
    r.committer = None;
    assert!(matches!(Commit::try_from(&repo_conf("r", None), &r), Err(CommitError::MissingAuthor)));
}

#[test]
fn commit_message_falls_back_to_body() {
    let mut r = record(C1, "feat: a", 0);
    r.summary = None;
    let c = Commit::try_from(&repo_conf("r", None), &r).unwrap();
    assert_eq!(c.message, "feat: a\n\nbody");
    r.message = None;
    assert!(matches!(Commit::try_from(&repo_conf("r", None), &r), Err(CommitError::MissingMessage)));
}

#[test]
fn commit_time_out_of_range() {
    let r = record(C1, "feat: a", i64::MAX);
    assert!(matches!(Commit::try_from(&repo_conf("r", None), &r), Err(CommitError::InvalidDate)));
}

#[test]
fn commit_short_id_kept_whole() {
    let c = Commit::try_from(&repo_conf("r", None), &record("abc", "feat: a", 0)).unwrap();
    assert_eq!(c.hash, "abc");
}

#[test]
fn commit_from_given_parts() {
    let r = record(C2, "fix: b", 0);
    let c = Commit::from_parts(&r, Some(s("2020-02-02")), Some(Some(s("L")))).unwrap();
    assert_eq!(c.date, "2020-02-02");
    assert_eq!(c.link, Some(s("L")));
    assert_eq!(c.hash, "2222222");
    assert!(matches!(Commit::from_parts(&r, None, None), Err(CommitError::InvalidDate)));
    assert!(matches!(
        Commit::from_parts(&r, Some(s("d")), Some(None)),
        Err(CommitError::LinkFormat)
    ));
}

#[test]
fn lightweight_markers_leave_no_entry() {
    let index = tag_index(&vec![annotated("v1", C1), lightweight("v2"), annotated("v3", C3)]);
    assert_eq!(index, vec![(s(C1), s("v1")), (s(C3), s("v3"))]);
}

#[test]
fn last_marker_for_a_commit_wins() {
    let index = tag_index(&vec![annotated("a", C1), annotated("b", C1)]);
    assert_eq!(release_at(&index, &s(C1)), Some(s("b")));
    assert_eq!(release_at(&index, &s(C2)), None);
}

#[test]
fn end_to_end_two_releases() {
    let history = History {
        markers: vec![annotated("v1.0.0", C2)],
        commits: vec![
            record(C1, "feat: add login", 10),
            record(C2, "fix: crash on exit", 20),
            record(C3, "feat: add logout", 30),
        ],
    };
    let repo = Repository::try_from(&kinds(), &repo_conf("app", None), &history).unwrap();
    assert_eq!(repo.name, "app");
    assert_eq!(repo.tags.len(), 2);
    assert_eq!(repo.tags[0].name, "Technical preview");
    assert_eq!(groups(&repo.tags[0]), vec![group("Features", &["feat: add logout"])]);
    assert_eq!(repo.tags[1].name, "v1.0.0");
    assert_eq!(
        groups(&repo.tags[1]),
        vec![group("Features", &["feat: add login"]), group("Bug Fixes", &["fix: crash on exit"])]
    );
}

#[test]
fn no_markers_single_preview_group() {
    let history = History {
        markers: vec![],
        commits: vec![
            record(C1, "feat: one", 1),
            record(C2, "chore: skipped", 2),
            record(C3, "fix: two", 3),
            record(C4, "feat: three", 4),
        ],
    };
    let repo = Repository::try_from(&kinds(), &repo_conf("r", None), &history).unwrap();
    assert_eq!(repo.tags.len(), 1);
    assert_eq!(repo.tags[0].name, "Technical preview");
    assert_eq!(
        groups(&repo.tags[0]),
        vec![group("Features", &["feat: one", "feat: three"]), group("Bug Fixes", &["fix: two"])]
    );
}

#[test]
fn no_kept_commits_no_group() {
    let history = History { markers: vec![], commits: vec![record(C1, "chore: x", 1)] };
    let repo = Repository::try_from(&kinds(), &repo_conf("r", None), &history).unwrap();
    assert_eq!(repo.tags.len(), 0);
}

#[test]
fn lightweight_marker_closes_no_release() {
    let history = History {
        markers: vec![annotated("A", C1), lightweight("B")],
        commits: vec![record(C1, "feat: one", 1), record(C2, "fix: two", 2)],
    };
    let repo = Repository::try_from(&kinds(), &repo_conf("r", None), &history).unwrap();
    let names: Vec<String> = repo.tags.iter().map(|t| t.name.clone()).collect();
    assert_eq!(names, vec![s("Technical preview"), s("A")]);
}

#[test]
fn merge_commit_in_no_group() {
    let history = History {
        markers: vec![annotated("v1", C3)],
        commits: vec![
            record(C1, "Merge branch 'main'", 1),
            record(C2, "feat: one", 2),
            record(C3, "Merge branch: feat: x", 3),
        ],
    };
    let repo = Repository::try_from(&kinds(), &repo_conf("r", None), &history).unwrap();
    assert_eq!(repo.tags.len(), 1);
    assert_eq!(repo.tags[0].name, "Technical preview");
    assert_eq!(groups(&repo.tags[0]), vec![group("Features", &["feat: one"])]);
}

#[test]
fn release_at_kept_commit_holds_it() {
    let history = History {
        markers: vec![annotated("v1", C1)],
        commits: vec![record(C1, "fix: one", 1)],
    };
    let repo = Repository::try_from(&kinds(), &repo_conf("r", None), &history).unwrap();
    assert_eq!(repo.tags.len(), 1);
    assert_eq!(repo.tags[0].name, "v1");
    assert_eq!(groups(&repo.tags[0]), vec![group("Bug Fixes", &["fix: one"])]);
}

#[test]
fn repeated_runs_agree() {
    let history = History {
        markers: vec![annotated("v1", C2)],
        commits: vec![record(C1, "feat: a", 100), record(C2, "fix: b", 200), record(C3, "feat: c", 300)],
    };
    let conf = repo_conf("r", Some("https://h/{hash}"));
    let a = Repository::try_from(&kinds(), &conf, &history).unwrap();
    let b = Repository::try_from(&kinds(), &conf, &history).unwrap();
    assert_eq!(format!("{:?}", a), format!("{:?}", b));
}

#[test]
fn missing_author_fails_whole_run() {
    let mut bad = record(C2, "fix: b", 2);
    bad.author = None;
    bad.committer = None;
    let configuration = conf::Configuration {
        kinds: kinds(),
        repositories: vec![repo_conf("good", None), repo_conf("bad", None)],
    };
    let histories = vec![
        Ok(History { markers: vec![], commits: vec![record(C1, "feat: a", 1)] }),
        Ok(History { markers: vec![], commits: vec![bad] }),
    ];
    let err = Changelog::try_from(&configuration, &histories).unwrap_err();
    assert_eq!(err.repository, "bad");
    match err.cause {
        RepositoryError::Commit { id, cause } => {
            assert_eq!(id, C2);
            assert_eq!(cause, CommitError::MissingAuthor);
        },
        other => panic!("unexpected {:?}", other),
    }
}

#[test]
fn store_error_fails_run() {
    let configuration = conf::Configuration {
        kinds: kinds(),
        repositories: vec![repo_conf("a", None), repo_conf("b", None)],
    };
    let histories = vec![Err(s("not found")), Ok(History { markers: vec![], commits: vec![] })];
    let err = Changelog::try_from(&configuration, &histories).unwrap_err();
    assert_eq!(err.repository, "a");
    assert!(matches!(err.cause, RepositoryError::Store(ref c) if c == "not found"));
}

#[test]
fn changelog_keeps_repository_order() {
    let configuration = conf::Configuration {
        kinds: kinds(),
        repositories: vec![repo_conf("a", None), repo_conf("b", None)],
    };
    let histories = vec![
        Ok(History { markers: vec![], commits: vec![record(C1, "feat: a", 1)] }),
        Ok(History { markers: vec![], commits: vec![] }),
    ];
    let c = Changelog::try_from(&configuration, &histories).unwrap();
    let names: Vec<String> = c.repositories.iter().map(|r| r.name.clone()).collect();
    assert_eq!(names, vec![s("a"), s("b")]);
    assert_eq!(c.repositories[1].tags.len(), 0);
}

#[test]
fn formats_and_extensions() {
    assert_eq!(Format::from_name(&s("html")), Some(Format::Html));
    assert_eq!(Format::from_name(&s("markdown")), Some(Format::Markdown));
    assert_eq!(Format::from_name(&s("pdf")), None);
    assert_eq!(Format::Html.extension(), "html");
    assert_eq!(Format::Markdown.extension(), "md");
}
