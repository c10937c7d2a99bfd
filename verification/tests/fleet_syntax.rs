use fleet_syntax::discovery::{filter_wanted, gather_discovered, gather_explicit, work_set_mode, WorkSetMode};
use fleet_syntax::errors::{resolve_credential, AcquisitionError, DiscoveryError, FatalError};
use fleet_syntax::orchestrator::RunPhase;
use fleet_syntax::parse::{outcome_of, validate_loaded, validate_source, ParseOutcome};
use fleet_syntax::pipeline::{exit_code, run_outcome, scan_result, PipelineResult};
use fleet_syntax::repo::Repo;
use fleet_syntax::walker::{ends_with_ts, join_path, walk, FsEntry};
use fleet_syntax::workspace::Staging;

fn repo(url: &str, fork: bool, archived: bool) -> Repo {
    Repo { clone_url: url.to_string(), fork, archived }
}

fn urls(repos: &[Repo]) -> Vec<String> {
    repos.iter().map(|r| r.clone_url.clone()).collect()
}

#[test]
fn filtering_full_discovery_drops_archived_and_forks() {
    let listed = vec![
        repo("https://example.test/keep-a", false, false),
        repo("https://example.test/fork", true, false),
        repo("https://example.test/archived", false, true),
        repo("https://example.test/both", true, true),
        repo("https://example.test/keep-b", false, false),
    ];
    let kept = filter_wanted(listed);
    assert_eq!(
        urls(&kept),
        vec![
            "https://example.test/keep-a".to_string(),
            "https://example.test/keep-b".to_string()
        ]
    );
}

#[test]
fn filtering_applies_per_organization_listing() {
    let per_org = vec![
        Ok(vec![
            repo("https://example.test/one", false, false),
            repo("https://example.test/two", true, false),
        ]),
        Ok(vec![repo("https://example.test/three", false, true)]),
    ];
    let work_set = gather_discovered(per_org).unwrap();
    assert_eq!(urls(&work_set), vec!["https://example.test/one".to_string()]);
}

#[test]
fn filtering_explicit_mode_keeps_every_repository() {
    let per_org = vec![
        Ok(vec![
            repo("https://example.test/fork", true, false),
            repo("https://example.test/archived", false, true),
        ]),
        Ok(vec![repo("https://example.test/plain", false, false)]),
    ];
    let work_set = gather_explicit(per_org).unwrap();
    assert_eq!(
        urls(&work_set),
        vec![
            "https://example.test/fork".to_string(),
            "https://example.test/archived".to_string(),
            "https://example.test/plain".to_string()
        ]
    );
}

#[test]
fn discovery_reports_the_first_failure_and_discards_partial_results() {
    let per_org: Vec<Result<Vec<Repo>, DiscoveryError>> = vec![
        Ok(vec![repo("https://example.test/one", false, false)]),
        Err(DiscoveryError { message: "org not found: alpha".to_string() }),
        Err(DiscoveryError { message: "org not found: beta".to_string() }),
    ];
    let err = gather_explicit(per_org).unwrap_err();
    assert_eq!(err.message, "org not found: alpha");

    let per_org: Vec<Result<Vec<Repo>, DiscoveryError>> = vec![
        Err(DiscoveryError { message: "network down".to_string() }),
        Ok(vec![repo("https://example.test/one", false, false)]),
    ];
    let err = gather_discovered(per_org).unwrap_err();
    assert_eq!(err.message, "network down");
}

#[test]
fn work_set_mode_follows_explicit_names() {
    assert!(matches!(work_set_mode(0), WorkSetMode::FullDiscovery));
    assert!(matches!(work_set_mode(1), WorkSetMode::Explicit));
    assert!(matches!(work_set_mode(3), WorkSetMode::Explicit));
}

#[test]
fn missing_credential_refuses_to_start() {
    let ok = resolve_credential(Some("SECRET-REDACTED".to_string()), "credential required".to_string());
    assert_eq!(ok.unwrap(), "SECRET-REDACTED");
    let err = resolve_credential(None, "credential required".to_string());
    assert_eq!(err.unwrap_err().message, "credential required");
}

#[test]
fn workspace_identities_are_isolated() {
    let mut staging = Staging::new();
    assert_eq!(staging.active_count(), 0);
    let a = staging.allocate();
    let b = staging.allocate();
    assert_ne!(a, b);
    assert!(staging.is_active(a));
    assert!(staging.is_active(b));
    assert_eq!(staging.active_count(), 2);

    staging.release(a);
    assert!(!staging.is_active(a));
    assert!(staging.is_active(b));
    assert_eq!(staging.active_count(), 1);

    staging.release(b);
    assert!(!staging.is_active(b));
    assert_eq!(staging.active_count(), 0);
}

#[test]
fn workspace_release_is_effective_after_failure_or_success_alike() {
    let mut staging = Staging::new();
    let a = staging.allocate();
    staging.release(a);
    let b = staging.allocate();
    assert_ne!(a, b);
    assert!(!staging.is_active(a));
    assert!(staging.is_active(b));
}

fn sample_tree() -> FsEntry {
    FsEntry::Dir {
        name: "repo".to_string(),
        entries: vec![
            FsEntry::File { name: "a.ts".to_string() },
            FsEntry::File { name: "notes.txt".to_string() },
            FsEntry::Dir {
                name: "src".to_string(),
                entries: vec![
                    FsEntry::File { name: "c.ts".to_string() },
                    FsEntry::Other { name: "c.ts.link".to_string() },
                    FsEntry::Dir { name: "empty".to_string(), entries: vec![] },
                ],
            },
            FsEntry::Other { name: "socket.ts".to_string() },
            FsEntry::File { name: "d.TS".to_string() },
        ],
    }
}

#[test]
fn traversal_yields_exactly_the_matching_files() {
    let paths = walk(&sample_tree());
    let expected: Vec<Vec<String>> = vec![
        vec!["repo".to_string(), "a.ts".to_string()],
        vec!["repo".to_string(), "src".to_string(), "c.ts".to_string()],
    ];
    assert_eq!(paths, expected);
}

#[test]
fn traversal_of_a_lone_file_or_other_entry() {
    let lone = FsEntry::File { name: "only.ts".to_string() };
    assert_eq!(walk(&lone), vec![vec!["only.ts".to_string()]]);
    let skipped = FsEntry::Other { name: "only.ts".to_string() };
    assert_eq!(walk(&skipped), Vec::<Vec<String>>::new());
    let miss = FsEntry::File { name: "only.rs".to_string() };
    assert_eq!(walk(&miss), Vec::<Vec<String>>::new());
}

#[test]
fn suffix_test_is_exact() {
    assert!(ends_with_ts(&".ts".to_string()));
    assert!(ends_with_ts(&"a.ts".to_string()));
    assert!(ends_with_ts(&"weird.name.ts".to_string()));
    assert!(!ends_with_ts(&"".to_string()));
    assert!(!ends_with_ts(&"ts".to_string()));
    assert!(!ends_with_ts(&"a.tsx".to_string()));
    assert!(!ends_with_ts(&"a.TS".to_string()));
    assert!(!ends_with_ts(&"ats".to_string()));
}

#[test]
fn path_display_joins_components() {
    let p = vec!["repo".to_string(), "src".to_string(), "c.ts".to_string()];
    assert_eq!(join_path(&p), "repo/src/c.ts");
    let single = vec!["a.ts".to_string()];
    assert_eq!(join_path(&single), "a.ts");
    let empty: Vec<String> = vec![];
    assert_eq!(join_path(&empty), "");
}

const VALID_TS: &str = "export const answer: number = 42;\n\
    export function double(n: number): number { return n * 2; }\n";
const INVALID_TS: &str = "export function broken(): number { return 42;\n";

#[test]
fn parse_accepts_a_well_formed_module() {
    let outcome = validate_source("repo/a.ts".to_string(), &VALID_TS.to_string());
    assert!(matches!(outcome, ParseOutcome::Success));
}

#[test]
fn parse_rejects_a_malformed_module_with_a_diagnostic() {
    let outcome = validate_source("repo/b.ts".to_string(), &INVALID_TS.to_string());
    match outcome {
        ParseOutcome::Failure { file_path, diagnostic } => {
            assert_eq!(file_path, "repo/b.ts");
            assert!(!diagnostic.message.is_empty());
        }
        ParseOutcome::Success => panic!("a malformed module must not validate"),
    }
}

#[test]
fn verdict_packaging_keeps_path_message_and_position() {
    let ok = outcome_of("repo/a.ts".to_string(), Ok(()));
    assert!(matches!(ok, ParseOutcome::Success));
    let failed = outcome_of(
        "repo/b.ts".to_string(),
        Err(("Expected ';', '}' or <eof>".to_string(), 17)),
    );
    match failed {
        ParseOutcome::Failure { file_path, diagnostic } => {
            assert_eq!(file_path, "repo/b.ts");
            assert_eq!(diagnostic.message, "Expected ';', '}' or <eof>");
            assert_eq!(diagnostic.position, 17);
        }
        ParseOutcome::Success => panic!("a reported error must become a failure outcome"),
    }
}

#[test]
fn undecodable_contents_are_a_failure_with_the_loader_message() {
    let outcome = validate_loaded(
        "repo/junk.ts".to_string(),
        Err("stream did not contain valid UTF-8".to_string()),
    );
    match outcome {
        ParseOutcome::Failure { file_path, diagnostic } => {
            assert_eq!(file_path, "repo/junk.ts");
            assert_eq!(diagnostic.message, "stream did not contain valid UTF-8");
            assert_eq!(diagnostic.position, 0);
        }
        ParseOutcome::Success => panic!("undecodable contents must not validate"),
    }
}

#[test]
fn parse_failures_alone_do_not_fail_the_run() {
    let failing = validate_source("repo/b.ts".to_string(), &INVALID_TS.to_string());
    let a = scan_result(vec![
        validate_source("repo/a.ts".to_string(), &VALID_TS.to_string()),
        failing,
    ]);
    match &a {
        PipelineResult::Scanned { failures } => assert_eq!(failures.len(), 1),
        PipelineResult::Fatal { .. } => panic!("a scan is never fatal"),
    }
    let b = scan_result(vec![validate_source("repo/a.ts".to_string(), &VALID_TS.to_string())]);
    let run = run_outcome(vec![a, b]);
    assert!(run.is_ok());
    assert_eq!(exit_code(&run), 0);
}

#[test]
fn an_acquisition_failure_fails_the_run_whatever_else_happened() {
    let a = PipelineResult::Fatal {
        error: FatalError::Acquisition(AcquisitionError {
            clone_url: "https://example.test/gone".to_string(),
            message: "clone exited with status 128".to_string(),
        }),
    };
    let b = scan_result(vec![validate_source("repo/a.ts".to_string(), &VALID_TS.to_string())]);
    let run = run_outcome(vec![a, b]);
    match run {
        Err(FatalError::Acquisition(e)) => {
            assert_eq!(e.clone_url, "https://example.test/gone");
        }
        _ => panic!("the acquisition failure must be the run's error"),
    }
    let run = run_outcome(vec![
        PipelineResult::Fatal {
            error: FatalError::Acquisition(AcquisitionError {
                clone_url: "https://example.test/gone".to_string(),
                message: "clone exited with status 128".to_string(),
            }),
        },
    ]);
    assert_ne!(exit_code(&run), 0);
}

#[test]
fn orchestrator_ends_at_once_on_a_discovery_failure() {
    let phase = RunPhase::start();
    let (phase, launched) = phase.work_set_resolved(Err(DiscoveryError {
        message: "failed to fetch organizations".to_string(),
    }));
    assert!(launched.is_empty());
    match phase {
        RunPhase::Done { fatal: Some(FatalError::Discovery(e)) } => {
            assert_eq!(e.message, "failed to fetch organizations");
        }
        _ => panic!("a discovery failure must end the run"),
    }
}

#[test]
fn orchestrator_awaits_every_pipeline_and_keeps_the_first_fatal() {
    let phase = RunPhase::start();
    let repos = vec![
        repo("https://example.test/one", false, false),
        repo("https://example.test/two", false, false),
        repo("https://example.test/three", false, false),
    ];
    let (phase, launched) = phase.work_set_resolved(Ok(repos));
    assert_eq!(launched.len(), 3);
    let phase = phase.pipeline_completed(PipelineResult::Scanned { failures: vec![] });
    let phase = phase.pipeline_completed(PipelineResult::Fatal {
        error: FatalError::Traversal(fleet_syntax::errors::TraversalError {
            message: "permission denied".to_string(),
        }),
    });
    assert!(matches!(phase, RunPhase::Awaiting { pending: 1, .. }));
    let phase = phase.pipeline_completed(PipelineResult::Scanned { failures: vec![] });
    match phase {
        RunPhase::Done { fatal: Some(FatalError::Traversal(e)) } => {
            assert_eq!(e.message, "permission denied");
        }
        _ => panic!("the first fatal error must be the run's error"),
    }
}

#[test]
fn end_to_end_two_explicit_organizations() {
    // Two explicit organization names, each resolving to one repository.
    let per_org = vec![
        Ok(vec![repo("https://example.test/alpha/app", true, false)]),
        Ok(vec![repo("https://example.test/beta/lib", false, true)]),
    ];
    // Explicit mode trusts the listings as-is: flags are not filtered.
    let work_set = gather_explicit(per_org).unwrap();
    assert_eq!(work_set.len(), 2);

    let phase = RunPhase::start();
    let (mut phase, launched) = phase.work_set_resolved(Ok(work_set));
    assert_eq!(launched.len(), 2);

    // Each repository's working tree holds one valid and one invalid file.
    let mut diagnostics: Vec<String> = Vec::new();
    for repo in &launched {
        let tree = FsEntry::Dir {
            name: "tree".to_string(),
            entries: vec![
                FsEntry::File { name: "good.ts".to_string() },
                FsEntry::File { name: "bad.ts".to_string() },
                FsEntry::File { name: "readme.md".to_string() },
            ],
        };
        let mut outcomes = Vec::new();
        for path in walk(&tree) {
            let display = join_path(&path);
            let contents = if display.ends_with("good.ts") { VALID_TS } else { INVALID_TS };
            let outcome = validate_source(display, &contents.to_string());
            if let ParseOutcome::Failure { file_path, diagnostic } = &outcome {
                diagnostics.push(format!("{}: {} ({})", repo.clone_url, diagnostic.message, file_path));
            }
            outcomes.push(outcome);
        }
        let result = scan_result(outcomes);
        phase = phase.pipeline_completed(result);
    }

    // Exactly two parse diagnostics, one per invalid file.
    assert_eq!(diagnostics.len(), 2);
    assert!(diagnostics[0].contains("alpha/app"));
    assert!(diagnostics[1].contains("beta/lib"));
    assert!(diagnostics[0].contains("tree/bad.ts"));

    // Parse failures are reported but not fatal: the run exits cleanly.
    match phase {
        RunPhase::Done { fatal: None } => {}
        _ => panic!("parse failures alone must not end the run fatally"),
    }
}
