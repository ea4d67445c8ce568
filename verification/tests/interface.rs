use passman::app::{
    after_name, first_place, remove_from_filter, seed_to_edit, Cmd, Command, EntrySelectState, Key,
    ModifyFieldState, NewValueKind, Sidebar,
};
use passman::app::EntrySelectState::{Field, Name, Plus, Tags};
use passman::version::PlaintextValue;

fn bar(start: usize, selected: usize) -> Sidebar {
    Sidebar { start_entries_row: start, selected_entries_row: selected }
}

#[test]
fn keys_stand_for_commands() {
    assert_eq!(Cmd::from_key(Key::Char('h')), Some(Cmd::Left));
    assert_eq!(Cmd::from_key(Key::Left), Some(Cmd::Left));
    assert_eq!(Cmd::from_key(Key::Char('j')), Some(Cmd::Down));
    assert_eq!(Cmd::from_key(Key::Down), Some(Cmd::Down));
    assert_eq!(Cmd::from_key(Key::Char('k')), Some(Cmd::Up));
    assert_eq!(Cmd::from_key(Key::Up), Some(Cmd::Up));
    assert_eq!(Cmd::from_key(Key::Char('l')), Some(Cmd::Right));
    assert_eq!(Cmd::from_key(Key::Right), Some(Cmd::Right));
    assert_eq!(Cmd::from_key(Key::Ctrl('e')), Some(Cmd::ScrollDown));
    assert_eq!(Cmd::from_key(Key::Ctrl('y')), Some(Cmd::ScrollUp));
    assert_eq!(Cmd::from_key(Key::Char('/')), Some(Cmd::StartSearch));
    assert_eq!(Cmd::from_key(Key::Char(':')), Some(Cmd::StartCommand));
    assert_eq!(Cmd::from_key(Key::Char('q')), Some(Cmd::Quit));
    assert_eq!(Cmd::from_key(Key::Char('\n')), Some(Cmd::Select));
    for key in [
        Key::Char('d'),
        Key::Char('s'),
        Key::Char('+'),
        Key::Char('t'),
        Key::Char('e'),
        Key::Ctrl('q'),
        Key::Alt('h'),
        Key::Esc,
        Key::Backspace,
        Key::F(1),
        Key::Home,
        Key::Null,
    ] {
        assert_eq!(Cmd::from_key(key), None);
    }
}

#[test]
fn typed_commands_are_told_apart() {
    assert_eq!(Command::parse("new"), Command::New);
    assert_eq!(Command::parse("unlock"), Command::Unlock { redo: false });
    assert_eq!(Command::parse("decrypt"), Command::Unlock { redo: false });
    assert_eq!(Command::parse("unlock!"), Command::Unlock { redo: true });
    assert_eq!(Command::parse("decrypt!"), Command::Unlock { redo: true });
    for cmd in ["q", "quit", "q(uit)"] {
        assert_eq!(Command::parse(cmd), Command::Quit);
    }
    for cmd in ["q!", "quit!", "q(uit)!"] {
        assert_eq!(Command::parse(cmd), Command::ForceQuit);
    }
    for cmd in ["w", "write", "w(rite)"] {
        assert_eq!(Command::parse(cmd), Command::Write);
    }
    assert_eq!(Command::parse("wq"), Command::WriteQuit);
    assert_eq!(Command::parse("delete"), Command::Delete);
    for cmd in ["", "New", " new", "wq!", "exit", "del"] {
        assert_eq!(Command::parse(cmd), Command::Unknown);
    }
}

#[test]
fn cursor_walks_down_an_entry() {
    assert_eq!(Name.down(2), Tags);
    assert_eq!(Tags.down(2), Field { idx: 0 });
    assert_eq!(Field { idx: 0 }.down(2), Field { idx: 1 });
    assert_eq!(Field { idx: 1 }.down(2), Plus);
    assert_eq!(Plus.down(2), Plus);
    assert_eq!(Tags.down(0), Plus);
    assert_eq!(Field { idx: 0 }.down(1), Plus);
    assert_eq!(Field { idx: usize::MAX }.down(3), Plus);
}

#[test]
fn cursor_walks_up_an_entry() {
    assert_eq!(Plus.up(2), Field { idx: 1 });
    assert_eq!(Field { idx: 1 }.up(2), Field { idx: 0 });
    assert_eq!(Field { idx: 0 }.up(2), Tags);
    assert_eq!(Tags.up(2), Name);
    assert_eq!(Name.up(2), Name);
    assert_eq!(Plus.up(0), Tags);
}

#[test]
fn cursor_after_a_field_was_deleted() {
    assert_eq!(EntrySelectState::after_delete(0, 0), Tags);
    assert_eq!(EntrySelectState::after_delete(3, 0), Tags);
    assert_eq!(EntrySelectState::after_delete(0, 2), Field { idx: 0 });
    assert_eq!(EntrySelectState::after_delete(1, 2), Field { idx: 0 });
    assert_eq!(EntrySelectState::after_delete(2, 2), Field { idx: 1 });
}

#[test]
fn sidebar_moves_down_and_scrolls_at_the_bottom() {
    // Five rows on the screen, ten in the list.
    assert_eq!(bar(0, 0).down(10, 5), bar(0, 1));
    assert_eq!(bar(0, 3).down(10, 5), bar(0, 4));
    assert_eq!(bar(0, 4).down(10, 5), bar(1, 4));
    assert_eq!(bar(4, 4).down(10, 5), bar(5, 4));
    // On the last row nothing moves.
    assert_eq!(bar(5, 4).down(10, 5), bar(5, 4));
    assert_eq!(bar(0, 0).down(1, 5), bar(0, 0));
    assert_eq!(bar(0, 0).down(0, 5), bar(0, 0));
    // One row on the screen: every step scrolls.
    assert_eq!(bar(2, 0).down(10, 1), bar(3, 0));
}

#[test]
fn sidebar_moves_up_and_scrolls_at_the_top() {
    assert_eq!(bar(3, 2).up(), bar(3, 1));
    assert_eq!(bar(3, 0).up(), bar(2, 0));
    assert_eq!(bar(0, 1).up(), bar(0, 0));
    assert_eq!(bar(0, 0).up(), bar(0, 0));
}

#[test]
fn sidebar_scrolls_under_the_selection() {
    assert_eq!(bar(3, 1).scroll_up(), bar(2, 2));
    assert_eq!(bar(0, 1).scroll_up(), bar(0, 1));
    assert_eq!(bar(3, 1).scroll_down(10), bar(4, 0));
    assert_eq!(bar(3, 0).scroll_down(10), bar(4, 0));
    assert_eq!(bar(9, 0).scroll_down(10), bar(9, 0));
    assert_eq!(bar(0, 0).scroll_down(0), bar(0, 0));
    assert_eq!(bar(3, 1).scroll_up().index(), bar(3, 1).index());
}

#[test]
fn sidebar_is_brought_back_into_a_shorter_list() {
    assert_eq!(bar(3, 2).clamped(0), bar(0, 0));
    assert_eq!(bar(3, 2).clamped(10), bar(3, 2));
    assert_eq!(bar(3, 2).clamped(6), bar(3, 2));
    // The list scrolls up as far as that takes.
    assert_eq!(bar(3, 2).clamped(5), bar(2, 2));
    assert_eq!(bar(3, 2).clamped(3), bar(0, 2));
    // And the selected row moves up for the rest.
    assert_eq!(bar(3, 2).clamped(2), bar(0, 1));
    assert_eq!(bar(3, 2).clamped(1), bar(0, 0));
    for start in 0..6usize {
        for selected in 0..6usize {
            for n in 1..8usize {
                let c = bar(start, selected).clamped(n);
                assert_eq!(c.index(), (start + selected).min(n - 1));
            }
        }
    }
    assert_eq!(bar(3, 2).after_delete(), bar(2, 2));
    assert_eq!(bar(0, 2).after_delete(), bar(0, 2));
}

#[test]
fn sidebar_selects_through_the_filter() {
    assert_eq!(bar(1, 1).selected_entry(&None, 5), Some(2));
    assert_eq!(bar(1, 1).selected_entry(&None, 2), None);
    assert_eq!(bar(0, 0).selected_entry(&None, 0), None);
    let filter = Some(vec![7, 3, 9]);
    assert_eq!(bar(0, 0).selected_entry(&filter, 10), Some(7));
    assert_eq!(bar(1, 1).selected_entry(&filter, 10), Some(9));
    assert_eq!(bar(2, 1).selected_entry(&filter, 10), None);
    assert_eq!(bar(0, 0).selected_entry(&Some(vec![]), 10), None);
}

#[test]
fn deleted_entries_leave_the_filter() {
    let mut none: Option<Vec<usize>> = None;
    assert!(remove_from_filter(&mut none, 3));
    assert_eq!(none, None);

    let mut filter = Some(vec![7, 3, 9, 3]);
    assert!(!remove_from_filter(&mut filter, 4));
    assert_eq!(filter, Some(vec![7, 3, 9, 3]));
    assert!(remove_from_filter(&mut filter, 3));
    assert_eq!(filter, Some(vec![7, 9, 3]));
    assert!(remove_from_filter(&mut filter, 3));
    assert_eq!(filter, Some(vec![7, 9]));
    assert!(remove_from_filter(&mut filter, 7));
    assert!(remove_from_filter(&mut filter, 9));
    assert_eq!(filter, Some(vec![]));
    assert!(!remove_from_filter(&mut filter, 9));

    assert_eq!(first_place(&vec![7, 3, 9, 3], 3), 1);
    assert_eq!(first_place(&vec![7, 3, 9, 3], 7), 0);
    assert_eq!(first_place(&vec![7, 3, 9, 3], 5), 4);
    assert_eq!(first_place(&vec![], 5), 0);
}

#[test]
fn editing_starts_from_what_the_field_held() {
    let text = Some(PlaintextValue::Manual { value: "abc".to_owned(), protected: true });
    let seed = Some(PlaintextValue::Totp { issuer: "Bank".to_owned(), secret: "SEED".to_owned() });

    let (state, start) = after_name(NewValueKind::Manual, &text);
    assert!(matches!(state, ModifyFieldState::ManualValue { protected: true }));
    assert_eq!(start, "abc");
    let plain = Some(PlaintextValue::Manual { value: "x".to_owned(), protected: false });
    let (state, start) = after_name(NewValueKind::Manual, &plain);
    assert!(matches!(state, ModifyFieldState::ManualValue { protected: false }));
    assert_eq!(start, "x");
    let (state, start) = after_name(NewValueKind::Manual, &None);
    assert!(matches!(state, ModifyFieldState::ManualValue { protected: false }));
    assert_eq!(start, "");
    let (state, start) = after_name(NewValueKind::Manual, &seed);
    assert!(matches!(state, ModifyFieldState::ManualValue { protected: false }));
    assert_eq!(start, "");

    let (state, start) = after_name(NewValueKind::Totp, &seed);
    assert!(matches!(state, ModifyFieldState::TotpIssuer));
    assert_eq!(start, "Bank");
    let (state, start) = after_name(NewValueKind::Totp, &text);
    assert!(matches!(state, ModifyFieldState::TotpIssuer));
    assert_eq!(start, "");
    let (state, start) = after_name(NewValueKind::Totp, &None);
    assert!(matches!(state, ModifyFieldState::TotpIssuer));
    assert_eq!(start, "");

    assert_eq!(seed_to_edit(&seed), "SEED");
    assert_eq!(seed_to_edit(&text), "");
    assert_eq!(seed_to_edit(&None), "");
}

fn searchable() -> passman::version::store::Store {
    let entry = |name: &str, tags: &[&str]| passman::version::v0_4::Entry {
        name: name.to_owned(),
        tags: tags.iter().map(|t| t.to_string()).collect(),
        fields: vec![],
        first_added: passman::version::Timestamp { secs_since_epoch: 0, nanos_since_epoch: 0 },
        last_update: passman::version::Timestamp { secs_since_epoch: 0, nanos_since_epoch: 0 },
    };
    let mut keyed = passman::version::Keyed::from_plaintext_with(
        "c2FsdHNhbHRzYWx0c2FsdA".to_owned(),
        vec![0u8; 16],
        &[0u8; 32],
        passman::version::PlaintextContent::init(),
    );
    keyed.content.inner = vec![
        entry("github", &["code", "work"]),
        entry("mail", &["private"]),
        entry("gitlab", &["code"]),
        entry("bank", &["money", "git"]),
        entry("github", &["code", "work"]),
        entry("untagged", &[]),
    ];
    passman::version::store::Store::V0_4(keyed)
}

#[test]
fn scores_take_the_best_of_name_and_tags() {
    let none: Vec<&str> = vec![];
    assert_eq!(passman::search::fuzzy_match("git", "mail", &none), None);
    let name_only = passman::search::fuzzy_match("git", "github", &none).unwrap();
    let tag_only = passman::search::fuzzy_match("git", "bank", &vec!["money", "git"]).unwrap();
    assert!(name_only > 0 && tag_only > 0);
    // A tag that matches carries an entry whose name does not.
    assert_eq!(passman::search::fuzzy_match("git", "bank", &vec!["money"]), None);
    // The best of all counts, wherever it stands.
    let both = passman::search::fuzzy_match("git", "github", &vec!["git"]).unwrap();
    assert_eq!(both, name_only.max(tag_only));
    assert_eq!(passman::search::fuzzy_match("git", "github", &vec!["git", "x"]), Some(both));
    assert_eq!(passman::search::fuzzy_match("git", "github", &vec!["x", "git"]), Some(both));
    // Every entry matches the empty term.
    assert_eq!(passman::search::fuzzy_match("", "mail", &none), Some(0));
    assert_eq!(passman::search::better(None, None), None);
    assert_eq!(passman::search::better(Some(1), None), Some(1));
    assert_eq!(passman::search::better(None, Some(-1)), Some(-1));
    assert_eq!(passman::search::better(Some(1), Some(2)), Some(2));
    assert_eq!(passman::search::better(Some(3), Some(2)), Some(3));
}

#[test]
fn search_lists_the_best_match_first() {
    let store = searchable();
    let found = passman::search::find_entries(&store, "git");
    // The entries that match, each once.
    let mut sorted = found.clone();
    sorted.sort();
    assert_eq!(sorted, vec![0, 2, 3, 4]);
    // Best first; entries that score alike in the order of the store.
    let score = |i: usize| {
        let e = store.entry(i);
        passman::search::fuzzy_match("git", e.name(), &e.tags()).unwrap()
    };
    for pair in found.windows(2) {
        assert!(
            score(pair[0]) > score(pair[1]) || (score(pair[0]) == score(pair[1]) && pair[0] < pair[1])
        );
    }
    let first = found.iter().position(|&i| i == 0).unwrap();
    let second = found.iter().position(|&i| i == 4).unwrap();
    assert!(first < second);

    assert_eq!(passman::search::find_entries(&store, "zzz"), Vec::<usize>::new());
    assert_eq!(passman::search::find_entries(&store, ""), vec![0, 1, 2, 3, 4, 5]);
    assert_eq!(passman::search::find_entries(&store, "untag"), vec![5]);
}

#[test]
fn filter_follows_the_search_term() {
    let store = searchable();
    let mut filter = Some(vec![1, 2]);
    let mut term = Some("old".to_owned());
    passman::search::set_filter(&mut filter, &mut term, None, &store);
    assert_eq!(filter, None);
    assert_eq!(term, None);

    passman::search::set_filter(&mut filter, &mut term, Some("untag".to_owned()), &store);
    assert_eq!(filter, Some(vec![5]));
    assert_eq!(term, Some("untag".to_owned()));

    passman::search::set_filter(&mut filter, &mut term, Some(String::new()), &store);
    assert_eq!(filter, None);
    assert_eq!(term, None);

    passman::search::set_filter(&mut filter, &mut term, Some("zzz".to_owned()), &store);
    assert_eq!(filter, Some(vec![]));
    assert_eq!(term, Some("zzz".to_owned()));
}
