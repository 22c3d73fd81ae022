use file_organizer::arguments::{parse_args, Invocation};
use file_organizer::config::{ConfigError, Configuration, Mode};
use file_organizer::entry::FileEntry;
use file_organizer::filter::accepts;
use file_organizer::lifecycle::{step, Action, Event, FileState, MAX_ATTEMPTS, RETRY_DELAY_SECONDS};
use file_organizer::transfer::{destination, plan, plan_transfers, Failure, TransferPlan};
use file_organizer::traverse::{DirItem, Traverser};

fn strings(items: &[&str]) -> Vec<String> {
    items.iter().map(|s| s.to_string()).collect()
}

fn settings(extensions: &[&str], file_names: &[&str]) -> Configuration {
    Configuration {
        source: "source".to_string(),
        destination: "dest".to_string(),
        extensions: strings(extensions),
        file_names: strings(file_names),
        preserve_structure: false,
        mode: Mode::Copy,
        dry_run: false,
    }
}

fn item(name: &str, is_dir: bool) -> DirItem {
    DirItem { name: name.to_string(), is_dir }
}

fn transfer(source: &str, destination: &str, mode: Mode) -> TransferPlan {
    TransferPlan { source: source.to_string(), destination: destination.to_string(), mode }
}

/// Walks a tree given as listings, one per directory.
fn walk(root: &str, tree: &[(&str, Vec<DirItem>)]) -> Vec<FileEntry> {
    let mut walk = Traverser::new(root, true).unwrap();
    let mut found = Vec::new();
    while let Some(directory) = walk.next_directory() {
        let listing = tree.iter().find(|(name, _)| *name == directory).map(|(_, l)| l.clone());
        found.extend(walk.absorb(&directory, &listing.unwrap_or_default()));
    }
    assert!(walk.is_done());
    found
}

/// Takes one file through its states; `outcomes` are those of its attempts.
fn drive(config: &Configuration, entry: &FileEntry, outcomes: &[Event]) -> (FileState, Vec<Action>) {
    let mut state = FileState::Discovered;
    let mut event = Event::Proceed;
    let mut actions = Vec::new();
    let mut attempts = 0;
    for _ in 0..10 {
        let (next, action) = step(config, entry, state, event);
        state = next;
        event = match &action {
            Action::Attempt { .. } => {
                attempts += 1;
                outcomes[attempts - 1]
            }
            _ => Event::Proceed,
        };
        if action != Action::Nothing {
            actions.push(action);
        }
        if state.is_terminal() {
            break;
        }
    }
    (state, actions)
}

#[test]
fn filter_takes_all_when_both_lists_are_empty() {
    let config = settings(&[], &[]);
    assert!(accepts(&config, &FileEntry::new("source", "a.txt")));
    assert!(accepts(&config, &FileEntry::new("source", "sub/noext")));
}

#[test]
fn filter_takes_a_listed_extension() {
    let config = settings(&["txt", "md"], &[]);
    assert!(accepts(&config, &FileEntry::new("source", "a.txt")));
    assert!(accepts(&config, &FileEntry::new("source", "sub/b.md")));
    assert!(!accepts(&config, &FileEntry::new("source", "b.log")));
    assert!(!accepts(&config, &FileEntry::new("source", "noext")));
}

#[test]
fn filter_takes_a_listed_name() {
    let config = settings(&[], &["Makefile"]);
    assert!(accepts(&config, &FileEntry::new("source", "Makefile")));
    assert!(accepts(&config, &FileEntry::new("source", "sub/Makefile")));
    assert!(!accepts(&config, &FileEntry::new("source", "Makefile.in")));
}

#[test]
fn filter_needs_one_match_only() {
    let config = settings(&["txt"], &["Makefile"]);
    assert!(accepts(&config, &FileEntry::new("source", "a.txt")));
    assert!(accepts(&config, &FileEntry::new("source", "Makefile")));
    assert!(!accepts(&config, &FileEntry::new("source", "b.log")));
}

#[test]
fn filter_matches_exactly_and_by_case() {
    let config = settings(&["txt"], &[]);
    assert!(!accepts(&config, &FileEntry::new("source", "a.TXT")));
    assert!(!accepts(&config, &FileEntry::new("source", "a.txt2")));
    assert!(!accepts(&config, &FileEntry::new("source", "a.tx")));
    assert!(!accepts(&config, &FileEntry::new("source", "txt")));
}

#[test]
fn filter_with_an_empty_extension_takes_files_without_one() {
    let config = settings(&[""], &[]);
    assert!(accepts(&config, &FileEntry::new("source", "README")));
    assert!(!accepts(&config, &FileEntry::new("source", "a.txt")));
}

#[test]
fn destination_keeps_the_relative_path_when_preserving() {
    let mut config = settings(&[], &[]);
    config.preserve_structure = true;
    let entry = FileEntry::new("source", "a/b/c.txt");
    assert_eq!(entry.path, "source/a/b/c.txt");
    assert_eq!(destination(&config, &entry), "dest/a/b/c.txt");
}

#[test]
fn destination_is_flat_otherwise() {
    let config = settings(&[], &[]);
    let entry = FileEntry::new("source", "a/b/c.txt");
    assert_eq!(destination(&config, &entry), "dest/c.txt");
}

#[test]
fn plan_names_source_destination_and_mode() {
    let mut config = settings(&[], &[]);
    let entry = FileEntry::new("source", "a/b/c.txt");
    assert_eq!(plan(&config, &entry), transfer("source/a/b/c.txt", "dest/c.txt", Mode::Copy));
    config.mode = Mode::Move;
    config.preserve_structure = true;
    assert_eq!(plan(&config, &entry), transfer("source/a/b/c.txt", "dest/a/b/c.txt", Mode::Move));
}

#[test]
fn plan_knows_the_directory_it_needs() {
    assert_eq!(transfer("s/a/c.txt", "dest/a/b/c.txt", Mode::Copy).destination_directory(), "dest/a/b");
    assert_eq!(transfer("s/c.txt", "c.txt", Mode::Copy).destination_directory(), "");
}

#[test]
fn plan_lines() {
    let copy = transfer("source/a.txt", "dest/a.txt", Mode::Copy);
    let cut = transfer("source/a.txt", "dest/a.txt", Mode::Move);
    assert_eq!(copy.verb(), "copy");
    assert_eq!(cut.verb(), "move");
    assert_eq!(copy.report_line(), "Would copy source/a.txt to dest/a.txt");
    assert_eq!(cut.report_line(), "Would move source/a.txt to dest/a.txt");
    assert_eq!(
        copy.failure_line(Failure::Transfer),
        "Error: cannot copy source/a.txt to dest/a.txt"
    );
    assert_eq!(
        cut.failure_line(Failure::Transfer),
        "Error: cannot move source/a.txt to dest/a.txt"
    );
    assert_eq!(
        cut.failure_line(Failure::DirectoryCreation),
        "Error: cannot create the directory for dest/a.txt"
    );
}

#[test]
fn batch_plans_the_accepted_entries_in_order() {
    let config = settings(&["txt"], &[]);
    let entries = vec![
        FileEntry::new("source", "a.txt"),
        FileEntry::new("source", "b.log"),
        FileEntry::new("source", "sub/c.txt"),
    ];
    assert_eq!(
        plan_transfers(&config, &entries),
        vec![
            transfer("source/a.txt", "dest/a.txt", Mode::Copy),
            transfer("source/sub/c.txt", "dest/c.txt", Mode::Copy),
        ]
    );
    assert_eq!(plan_transfers(&config, &Vec::new()), vec![]);
}

#[test]
fn batch_keeps_colliding_names() {
    let config = settings(&[], &[]);
    let entries = vec![FileEntry::new("source", "x/n.txt"), FileEntry::new("source", "y/n.txt")];
    assert_eq!(
        plan_transfers(&config, &entries),
        vec![
            transfer("source/x/n.txt", "dest/n.txt", Mode::Copy),
            transfer("source/y/n.txt", "dest/n.txt", Mode::Copy),
        ]
    );
}

#[test]
fn accepted_file_is_transferred_at_once() {
    let config = settings(&["txt"], &[]);
    let entry = FileEntry::new("source", "sub/c.txt");
    let (state, actions) = drive(&config, &entry, &[Event::Succeeded]);
    assert_eq!(state, FileState::Succeeded);
    assert_eq!(
        actions,
        vec![Action::Attempt {
            plan: transfer("source/sub/c.txt", "dest/c.txt", Mode::Copy),
            delay_seconds: 0,
        }]
    );
}

#[test]
fn rejected_file_is_left_alone() {
    let config = settings(&["txt"], &[]);
    let entry = FileEntry::new("source", "b.log");
    let (state, actions) = drive(&config, &entry, &[]);
    assert_eq!(state, FileState::Rejected);
    assert_eq!(actions, vec![]);
}

#[test]
fn dry_run_reports_and_attempts_nothing() {
    let mut config = settings(&[], &[]);
    config.dry_run = true;
    for mode in [Mode::Copy, Mode::Move] {
        config.mode = mode;
        let entry = FileEntry::new("source", "a/b.txt");
        let (state, actions) = drive(&config, &entry, &[]);
        assert_eq!(state, FileState::Reported);
        assert_eq!(actions, vec![Action::Report(transfer("source/a/b.txt", "dest/b.txt", mode))]);
    }
}

#[test]
fn copy_run_asks_for_copies_only() {
    let config = settings(&[], &[]);
    let entry = FileEntry::new("source", "a.txt");
    let failed = Event::Failed(Failure::Transfer);
    let (_, actions) = drive(&config, &entry, &[failed, failed, Event::Succeeded]);
    assert_eq!(actions.len(), 3);
    for action in actions {
        match action {
            Action::Attempt { plan, .. } => {
                assert_eq!(plan, transfer("source/a.txt", "dest/a.txt", Mode::Copy))
            }
            other => panic!("no attempt: {:?}", other),
        }
    }
}

#[test]
fn cut_run_asks_for_moves_only() {
    let mut config = settings(&[], &[]);
    config.mode = Mode::Move;
    let entry = FileEntry::new("source", "a.txt");
    let (state, actions) = drive(&config, &entry, &[Event::Succeeded]);
    assert_eq!(state, FileState::Succeeded);
    assert_eq!(
        actions,
        vec![Action::Attempt {
            plan: transfer("source/a.txt", "dest/a.txt", Mode::Move),
            delay_seconds: 0,
        }]
    );
}

#[test]
fn second_attempt_waits_and_may_succeed() {
    let config = settings(&[], &[]);
    let entry = FileEntry::new("source", "a.txt");
    let wanted = transfer("source/a.txt", "dest/a.txt", Mode::Copy);
    let (state, actions) =
        drive(&config, &entry, &[Event::Failed(Failure::DirectoryCreation), Event::Succeeded]);
    assert_eq!(state, FileState::Succeeded);
    assert_eq!(
        actions,
        vec![
            Action::Attempt { plan: wanted.clone(), delay_seconds: 0 },
            Action::Attempt { plan: wanted, delay_seconds: 1 },
        ]
    );
}

#[test]
fn third_failure_gives_the_file_up() {
    let config = settings(&[], &[]);
    let entry = FileEntry::new("source", "a.txt");
    let wanted = transfer("source/a.txt", "dest/a.txt", Mode::Copy);
    let (state, actions) = drive(
        &config,
        &entry,
        &[
            Event::Failed(Failure::Transfer),
            Event::Failed(Failure::Transfer),
            Event::Failed(Failure::DirectoryCreation),
        ],
    );
    assert_eq!(state, FileState::Failed);
    assert_eq!(
        actions,
        vec![
            Action::Attempt { plan: wanted.clone(), delay_seconds: 0 },
            Action::Attempt { plan: wanted.clone(), delay_seconds: 1 },
            Action::Attempt { plan: wanted.clone(), delay_seconds: 1 },
            Action::GiveUp { plan: wanted, failure: Failure::DirectoryCreation },
        ]
    );
}

#[test]
fn retry_bounds_are_three_attempts_and_one_second() {
    assert_eq!(MAX_ATTEMPTS, 3);
    assert_eq!(RETRY_DELAY_SECONDS, 1);
}

#[test]
fn states_step_one_by_one() {
    let config = settings(&["txt"], &[]);
    let entry = FileEntry::new("source", "a.txt");
    let failed = Event::Failed(Failure::Transfer);
    assert_eq!(
        step(&config, &entry, FileState::Discovered, Event::Proceed),
        (FileState::Accepted, Action::Nothing)
    );
    assert_eq!(step(&config, &entry, FileState::Attempting(1), failed).0, FileState::Attempting(2));
    assert_eq!(step(&config, &entry, FileState::Attempting(2), failed).0, FileState::Attempting(3));
    assert_eq!(step(&config, &entry, FileState::Attempting(3), failed).0, FileState::Failed);
    assert_eq!(
        step(&config, &entry, FileState::Attempting(3), Event::Succeeded),
        (FileState::Succeeded, Action::Nothing)
    );
    assert_eq!(step(&config, &entry, FileState::Attempting(200), failed).0, FileState::Failed);
}

#[test]
fn final_states_stay() {
    let config = settings(&[], &[]);
    let entry = FileEntry::new("source", "a.txt");
    let finals =
        [FileState::Rejected, FileState::Reported, FileState::Succeeded, FileState::Failed];
    let events = [Event::Proceed, Event::Succeeded, Event::Failed(Failure::Transfer)];
    for state in finals {
        assert!(state.is_terminal());
        for event in events {
            assert_eq!(step(&config, &entry, state, event), (state, Action::Nothing));
        }
    }
    assert!(!FileState::Discovered.is_terminal());
    assert!(!FileState::Accepted.is_terminal());
    assert!(!FileState::Attempting(1).is_terminal());
}

#[test]
fn unexpected_events_change_nothing() {
    let config = settings(&[], &[]);
    let entry = FileEntry::new("source", "a.txt");
    assert_eq!(
        step(&config, &entry, FileState::Discovered, Event::Succeeded),
        (FileState::Discovered, Action::Nothing)
    );
    assert_eq!(
        step(&config, &entry, FileState::Accepted, Event::Failed(Failure::Transfer)),
        (FileState::Accepted, Action::Nothing)
    );
    assert_eq!(
        step(&config, &entry, FileState::Attempting(2), Event::Proceed),
        (FileState::Attempting(2), Action::Nothing)
    );
}

#[test]
fn walk_needs_a_directory() {
    match Traverser::new("no/such", false) {
        Err(e) => assert_eq!(e, ConfigError::NotADirectory("no/such".to_string())),
        Ok(_) => panic!("a walk without a root"),
    }
    assert!(Traverser::new("src", true).is_ok());
}

#[test]
fn walk_starts_at_the_root() {
    let mut walk = Traverser::new("src", true).unwrap();
    assert!(!walk.is_done());
    assert_eq!(walk.locate("sub/deep"), "src/sub/deep");
    assert_eq!(walk.next_directory(), Some(String::new()));
    assert!(walk.is_done());
    assert_eq!(walk.next_directory(), None);
}

#[test]
fn walk_hands_out_files_and_keeps_directories() {
    let mut walk = Traverser::new("src", true).unwrap();
    let root = walk.next_directory().unwrap();
    let entries = walk.absorb(
        &root,
        &vec![item("a.txt", false), item("one", true), item("b.log", false), item("two", true)],
    );
    assert_eq!(entries, vec![FileEntry::new("src", "a.txt"), FileEntry::new("src", "b.log")]);
    assert_eq!(walk.next_directory(), Some("two".to_string()));
    let entries = walk.absorb("two", &vec![item("deep", true), item("c.txt", false)]);
    assert_eq!(entries, vec![FileEntry::new("src", "two/c.txt")]);
    assert_eq!(walk.next_directory(), Some("two/deep".to_string()));
    assert_eq!(walk.absorb("two/deep", &vec![]), vec![]);
    assert_eq!(walk.next_directory(), Some("one".to_string()));
    assert_eq!(walk.next_directory(), None);
}

#[test]
fn walk_finds_every_file_of_a_tree() {
    let tree = [
        ("", vec![item("a.txt", false), item("sub", true)]),
        ("sub", vec![item("c.txt", false), item("deeper", true)]),
        ("sub/deeper", vec![item("d", false)]),
    ];
    let paths: Vec<String> = walk("src", &tree).into_iter().map(|e| e.path).collect();
    assert_eq!(paths, vec!["src/a.txt", "src/sub/c.txt", "src/sub/deeper/d"]);
}

#[test]
fn txt_files_are_copied_flat_and_the_rest_stays() {
    let invocation = parse_args(&strings(&[
        "--dir", "src", "--extensions", "txt", "--copy", "--save", "dst",
    ]));
    let config = match invocation {
        Ok(Invocation::Run(config)) => config,
        other => panic!("no run: {:?}", other),
    };
    assert_eq!(config.check_directories(true, true), Ok(()));
    let tree = [
        ("", vec![item("a.txt", false), item("b.log", false), item("sub", true)]),
        ("sub", vec![item("c.txt", false)]),
    ];
    let entries = walk(&config.source, &tree);
    assert_eq!(entries.len(), 3);
    let mut attempted = Vec::new();
    for entry in &entries {
        let (state, actions) = drive(&config, entry, &[Event::Succeeded]);
        if entry.file_name == "b.log" {
            assert_eq!(state, FileState::Rejected);
        } else {
            assert_eq!(state, FileState::Succeeded);
        }
        attempted.extend(actions);
    }
    let wanted = vec![
        transfer("src/a.txt", "dst/a.txt", Mode::Copy),
        transfer("src/sub/c.txt", "dst/c.txt", Mode::Copy),
    ];
    assert_eq!(
        attempted,
        wanted
            .iter()
            .map(|plan| Action::Attempt { plan: plan.clone(), delay_seconds: 0 })
            .collect::<Vec<_>>()
    );
    assert_eq!(plan_transfers(&config, &entries), wanted);
}

#[test]
fn without_a_mode_nothing_is_planned() {
    let outcome = parse_args(&strings(&["--dir", "src", "--extensions", "txt", "--save", "dst"]));
    assert_eq!(outcome, Err(ConfigError::MissingMode));
    assert_eq!(file_organizer::arguments::exit_code(&outcome), 1);
}
