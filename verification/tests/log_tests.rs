use git_rename_stash::error::RenameError;
use git_rename_stash::log::{StashEntry, StashLog};
use git_rename_stash::plan::{plan_rename, Step};

fn id(byte: u8) -> Vec<u8> {
    vec![byte; 20]
}

fn entry(byte: u8, message: &str) -> StashEntry {
    StashEntry {
        commit_id: id(byte),
        message: message.to_string(),
    }
}

fn three() -> StashLog {
    StashLog::from_entries(vec![
        entry(0xc, "third"),
        entry(0xb, "second"),
        entry(0xa, "first"),
    ])
}

fn record(byte: u8, message: &str) -> Step {
    Step::UpdateHead {
        commit_id: id(byte),
        message: message.to_string(),
    }
}

#[test]
fn a_new_log_is_empty() {
    let log = StashLog::new();
    assert_eq!(log.len(), 0);
    assert!(log.is_empty());
    assert_eq!(log.head(), None);
    assert_eq!(log.entries(), &Vec::<StashEntry>::new());
    assert_eq!(log, StashLog::from_entries(Vec::new()));
}

#[test]
fn a_log_holds_its_entries_newest_first() {
    let log = three();
    assert_eq!(log.len(), 3);
    assert!(!log.is_empty());
    assert_eq!(log.get(0), Ok(&entry(0xc, "third")));
    assert_eq!(log.get(1), Ok(&entry(0xb, "second")));
    assert_eq!(log.get(2), Ok(&entry(0xa, "first")));
    assert_eq!(log.head(), Some(&id(0xc)));
    assert_eq!(
        log.entries(),
        &vec![entry(0xc, "third"), entry(0xb, "second"), entry(0xa, "first")]
    );
}

#[test]
fn a_lookup_past_the_end_names_the_last_position() {
    let log = three();
    assert_eq!(log.get(3), Err(RenameError::InvalidIndex { given: 3, max: 2 }));
    assert_eq!(
        log.get(usize::MAX),
        Err(RenameError::InvalidIndex { given: usize::MAX, max: 2 })
    );
}

#[test]
fn a_lookup_in_an_empty_log_finds_no_stashes() {
    let log = StashLog::new();
    assert_eq!(log.get(0), Err(RenameError::NoStashes));
    assert_eq!(log.get(5), Err(RenameError::NoStashes));
}

#[test]
fn removing_shifts_later_entries_toward_zero() {
    let mut log = three();
    assert_eq!(log.remove(1), Ok(entry(0xb, "second")));
    assert_eq!(
        log,
        StashLog::from_entries(vec![entry(0xc, "third"), entry(0xa, "first")])
    );
    assert_eq!(log.head(), Some(&id(0xc)));
    assert_eq!(log.remove(0), Ok(entry(0xc, "third")));
    assert_eq!(log.head(), Some(&id(0xa)));
    assert_eq!(log.remove(0), Ok(entry(0xa, "first")));
    assert_eq!(log.head(), None);
    assert!(log.is_empty());
}

#[test]
fn a_refused_removal_changes_nothing() {
    let mut log = three();
    assert_eq!(log.remove(3), Err(RenameError::InvalidIndex { given: 3, max: 2 }));
    assert_eq!(log, three());
    let mut empty = StashLog::new();
    assert_eq!(empty.remove(0), Err(RenameError::NoStashes));
    assert_eq!(empty, StashLog::new());
}

#[test]
fn moving_the_head_records_a_new_entry_in_front() {
    let mut log = three();
    log.update_head(id(0xd), "fourth".to_string());
    assert_eq!(log.len(), 4);
    assert_eq!(log.head(), Some(&id(0xd)));
    assert_eq!(log.get(0), Ok(&entry(0xd, "fourth")));
    assert_eq!(log.get(1), Ok(&entry(0xc, "third")));
    assert_eq!(log.get(3), Ok(&entry(0xa, "first")));

    let mut empty = StashLog::new();
    empty.update_head(id(1), "only".to_string());
    assert_eq!(empty, StashLog::from_entries(vec![entry(1, "only")]));
}

#[test]
fn a_copy_of_an_entry_equals_it() {
    let first = entry(0x5a, "kept");
    let copy = first.clone();
    assert_eq!(copy, first);
    assert_eq!(copy.commit_id, id(0x5a));
    assert_eq!(copy.message, "kept");
}

#[test]
fn steps_change_the_log_one_at_a_time() {
    let mut log = three();
    assert_eq!(log.apply(Step::Remove { position: 2 }), Ok(()));
    assert_eq!(
        log,
        StashLog::from_entries(vec![entry(0xc, "third"), entry(0xb, "second")])
    );
    assert_eq!(log.apply(record(0xe, "again")), Ok(()));
    assert_eq!(
        log,
        StashLog::from_entries(vec![
            entry(0xe, "again"),
            entry(0xc, "third"),
            entry(0xb, "second")
        ])
    );
    assert_eq!(record(0xe, "again").clone(), record(0xe, "again"));
    assert_eq!(Step::Remove { position: 4 }.clone(), Step::Remove { position: 4 });
}

#[test]
fn a_step_that_cannot_be_taken_changes_nothing() {
    let mut log = three();
    assert_eq!(
        log.apply(Step::Remove { position: 3 }),
        Err(RenameError::InvalidIndex { given: 3, max: 2 })
    );
    assert_eq!(log, three());
    let mut empty = StashLog::new();
    assert_eq!(
        empty.apply(Step::Remove { position: 0 }),
        Err(RenameError::NoStashes)
    );
    assert!(empty.is_empty());
}

#[test]
fn renaming_the_newest_takes_two_steps() {
    let plan = plan_rename(&three(), 0, id(0x1), "new".to_string());
    assert_eq!(
        plan,
        Ok(vec![Step::Remove { position: 0 }, record(0x1, "new")])
    );
}

#[test]
fn renaming_an_older_entry_puts_the_newer_ones_back() {
    let log = StashLog::from_entries(vec![
        entry(0xd, "fourth"),
        entry(0xc, "third"),
        entry(0xb, "second"),
        entry(0xa, "first"),
    ]);
    let plan = plan_rename(&log, 2, id(0x1), "new".to_string());
    assert_eq!(
        plan,
        Ok(vec![
            Step::Remove { position: 0 },
            Step::Remove { position: 0 },
            Step::Remove { position: 0 },
            record(0x1, "new"),
            record(0xc, "third"),
            record(0xd, "fourth"),
        ])
    );
}

#[test]
fn running_a_plan_replaces_the_entry_in_place() {
    for position in 0..4usize {
        let mut log = StashLog::from_entries(vec![
            entry(0xd, "fourth"),
            entry(0xc, "third"),
            entry(0xb, "second"),
            entry(0xa, "first"),
        ]);
        let mut expected = vec![
            entry(0xd, "fourth"),
            entry(0xc, "third"),
            entry(0xb, "second"),
            entry(0xa, "first"),
        ];
        expected[position] = entry(0x1, "new");
        let plan = plan_rename(&log, position, id(0x1), "new".to_string()).unwrap();
        assert_eq!(plan.len(), 2 * position + 2);
        for step in plan {
            assert_eq!(log.apply(step), Ok(()));
        }
        assert_eq!(log, StashLog::from_entries(expected));
    }
}

#[test]
fn nothing_is_planned_for_a_position_that_is_not_there() {
    assert_eq!(
        plan_rename(&three(), 3, id(1), "x".to_string()),
        Err(RenameError::InvalidIndex { given: 3, max: 2 })
    );
    assert_eq!(
        plan_rename(&StashLog::new(), 0, id(1), "x".to_string()),
        Err(RenameError::NoStashes)
    );
}

#[test]
fn renaming_the_second_of_three_keeps_the_order() {
    let mut log = StashLog::from_entries(vec![
        entry(0xc, "third"),
        entry(0xb, "second"),
        entry(0xa, "first"),
    ]);
    assert_eq!(log.rename(1, "renamed second", id(0xbb)), Ok(()));
    assert_eq!(log.len(), 3);
    assert_eq!(
        log,
        StashLog::from_entries(vec![
            entry(0xc, "third"),
            entry(0xbb, "renamed second"),
            entry(0xa, "first"),
        ])
    );
    assert_eq!(log.head(), Some(&id(0xc)));
}

#[test]
fn renaming_in_an_empty_log_finds_no_stashes() {
    let mut log = StashLog::new();
    assert_eq!(log.rename(0, "x", id(1)), Err(RenameError::NoStashes));
    assert!(log.is_empty());
}

#[test]
fn renaming_past_the_only_stash_is_an_invalid_index() {
    let mut log = StashLog::from_entries(vec![entry(0xa, "only")]);
    assert_eq!(
        log.rename(1, "x", id(1)),
        Err(RenameError::InvalidIndex { given: 1, max: 0 })
    );
    assert_eq!(log, StashLog::from_entries(vec![entry(0xa, "only")]));
}

#[test]
fn renaming_past_the_end_leaves_the_log_unchanged() {
    for position in [3usize, 4, 100, usize::MAX] {
        let mut log = three();
        assert_eq!(
            log.rename(position, "x", id(1)),
            Err(RenameError::InvalidIndex { given: position, max: 2 })
        );
        assert_eq!(log, three());
    }
}

#[test]
fn renaming_to_a_blank_message_is_refused_every_time() {
    let mut log = three();
    for message in ["", "   ", "\t\n", "\u{3000}"] {
        assert_eq!(log.rename(0, message, id(1)), Err(RenameError::EmptyMessage));
        assert_eq!(log, three());
        assert_eq!(log.rename(0, message, id(1)), Err(RenameError::EmptyMessage));
        assert_eq!(log, three());
    }
}

#[test]
fn a_blank_message_is_reported_before_a_bad_position() {
    let mut log = three();
    assert_eq!(log.rename(9, "  ", id(1)), Err(RenameError::EmptyMessage));
    let mut empty = StashLog::new();
    assert_eq!(empty.rename(0, "", id(1)), Err(RenameError::EmptyMessage));
}

#[test]
fn the_renamed_entry_carries_the_trimmed_message() {
    for position in 0..3usize {
        let mut log = three();
        assert_eq!(log.rename(position, "  spaces \n", id(0x77)), Ok(()));
        assert_eq!(log.len(), 3);
        assert_eq!(log.get(position), Ok(&entry(0x77, "spaces")));
    }
}

#[test]
fn renaming_the_newest_moves_the_head() {
    let mut log = three();
    assert_eq!(log.rename(0, "renamed third", id(0xcc)), Ok(()));
    assert_eq!(log.head(), Some(&id(0xcc)));
    assert_eq!(log.get(0), Ok(&entry(0xcc, "renamed third")));
    assert_eq!(log.get(1), Ok(&entry(0xb, "second")));
    assert_eq!(log.get(2), Ok(&entry(0xa, "first")));
}

#[test]
fn renaming_an_older_entry_leaves_the_head() {
    for position in 1..3usize {
        let mut log = three();
        assert_eq!(log.rename(position, "renamed", id(0x99)), Ok(()));
        assert_eq!(log.head(), Some(&id(0xc)));
        assert_eq!(log.get(0), Ok(&entry(0xc, "third")));
    }
}

#[test]
fn untouched_entries_keep_their_order() {
    let names = ["e", "d", "c", "b", "a"];
    for position in 0..5usize {
        let mut log = StashLog::from_entries(
            (0..5u8).map(|i| entry(i, names[i as usize])).collect(),
        );
        assert_eq!(log.rename(position, "renamed", id(0xff)), Ok(()));
        let left: Vec<&str> = log
            .entries()
            .iter()
            .filter(|e| e.commit_id != id(0xff))
            .map(|e| e.message.as_str())
            .collect();
        let expected: Vec<&str> = (0..5usize)
            .filter(|i| *i != position)
            .map(|i| names[i])
            .collect();
        assert_eq!(left, expected);
        assert_eq!(log.get(position).unwrap().message, "renamed");
    }
}

#[test]
fn running_steps_takes_them_in_order() {
    let mut log = three();
    let steps = vec![
        Step::Remove { position: 0 },
        record(0x1, "one"),
        record(0x2, "two"),
        Step::Remove { position: 3 },
    ];
    assert_eq!(log.run(&steps), Ok(()));
    assert_eq!(
        log,
        StashLog::from_entries(vec![
            entry(0x2, "two"),
            entry(0x1, "one"),
            entry(0xb, "second"),
        ])
    );
    assert_eq!(log.run(&Vec::new()), Ok(()));
    assert_eq!(log.len(), 3);
}

#[test]
fn running_steps_stops_at_the_first_that_cannot_be_taken() {
    let mut log = three();
    let steps = vec![
        Step::Remove { position: 1 },
        Step::Remove { position: 2 },
        record(0x1, "never"),
    ];
    assert_eq!(
        log.run(&steps),
        Err(RenameError::InvalidIndex { given: 2, max: 1 })
    );
    assert_eq!(
        log,
        StashLog::from_entries(vec![entry(0xc, "third"), entry(0xa, "first")])
    );
    let mut empty = StashLog::new();
    assert_eq!(
        empty.run(&vec![Step::Remove { position: 0 }, record(0x1, "never")]),
        Err(RenameError::NoStashes)
    );
    assert!(empty.is_empty());
}
