use flashcards::card::Card;
use flashcards::registry::{Dataset, RegistryError};
use flashcards::session::{RevealStage, StudyDirection};
use flashcards::workspace::{SessionSnapshot, Workspace};

fn unknown(word: &str) -> Card {
    Card { word: word.to_string(), pinyin: None, translation: "t".to_string(), known: false }
}

fn known(word: &str) -> Card {
    Card { word: word.to_string(), pinyin: None, translation: "t".to_string(), known: true }
}

fn words(cards: &Vec<Card>) -> Vec<String> {
    cards.iter().map(|c| c.word.clone()).collect()
}

fn stored<'a>(workspace: &'a Workspace, name: &str) -> &'a Dataset {
    workspace.registry().datasets().iter().find(|d| d.name == name).unwrap()
}

fn saved(workspace: &Workspace) -> bool {
    let name = workspace.current_dataset();
    if name.is_empty() {
        return true;
    }
    let dataset = stored(workspace, name);
    &dataset.unknown_cards == workspace.session().unknown_cards()
        && &dataset.known_cards == workspace.session().known_cards()
}

fn snapshot(unknown_cards: Vec<Card>, known_cards: Vec<Card>, cursor_index: usize, current: &str) -> SessionSnapshot {
    SessionSnapshot {
        unknown_cards,
        known_cards,
        cursor_index,
        stage: RevealStage::Second,
        direction: StudyDirection::Reverse,
        current_dataset: current.to_string(),
    }
}

#[test]
fn new_workspace_is_empty() {
    let workspace = Workspace::new();
    assert!(workspace.session().unknown_cards().is_empty());
    assert!(workspace.session().known_cards().is_empty());
    assert_eq!(workspace.registry().len(), 0);
    assert_eq!(workspace.current_dataset(), "");
}

#[test]
fn create_selects_the_new_dataset_and_clears_the_session() {
    let mut workspace = Workspace::new();
    workspace.load(&vec![unknown("a"), unknown("b"), known("k")]);
    workspace.advance();
    workspace.cycle_stage();
    workspace.toggle_direction();
    workspace.cycle_stage();
    assert_eq!(workspace.create("HSK1".to_string()), Ok(()));
    assert_eq!(workspace.current_dataset(), "HSK1");
    assert_eq!(workspace.registry().len(), 1);
    assert!(workspace.session().unknown_cards().is_empty());
    assert!(workspace.session().known_cards().is_empty());
    assert_eq!(workspace.session().cursor_index(), 0);
    assert_eq!(workspace.session().stage(), RevealStage::First);
    assert_eq!(workspace.session().direction(), StudyDirection::Reverse);
}

#[test]
fn create_twice_fails_with_duplicate_name() {
    let mut workspace = Workspace::new();
    assert_eq!(workspace.create("HSK1".to_string()), Ok(()));
    workspace.add("a".to_string(), None, "t".to_string());
    assert_eq!(workspace.create("HSK1".to_string()), Err(RegistryError::DuplicateName));
    assert_eq!(workspace.registry().len(), 1);
    assert_eq!(workspace.current_dataset(), "HSK1");
    assert_eq!(words(workspace.session().unknown_cards()), vec!["a"]);
}

#[test]
fn create_with_an_empty_name_fails() {
    let mut workspace = Workspace::new();
    workspace.add("a".to_string(), None, "t".to_string());
    assert_eq!(workspace.create(String::new()), Err(RegistryError::DuplicateName));
    assert_eq!(workspace.registry().len(), 0);
    assert_eq!(workspace.current_dataset(), "");
    assert_eq!(words(workspace.session().unknown_cards()), vec!["a"]);
}

#[test]
fn every_card_change_is_written_to_the_selected_dataset() {
    let mut workspace = Workspace::new();
    workspace.create("HSK1".to_string()).unwrap();
    workspace.add("a".to_string(), None, "t".to_string());
    assert!(saved(&workspace));
    assert_eq!(words(&stored(&workspace, "HSK1").unknown_cards), vec!["a"]);
    workspace.load(&vec![unknown("a"), unknown("b"), unknown("c"), known("k")]);
    assert!(saved(&workspace));
    assert_eq!(words(&stored(&workspace, "HSK1").unknown_cards), vec!["a", "b", "c"]);
    workspace.mark_known(0);
    assert!(saved(&workspace));
    assert_eq!(words(&stored(&workspace, "HSK1").known_cards), vec!["k", "a"]);
    workspace.restore(0);
    assert!(saved(&workspace));
    assert_eq!(words(&stored(&workspace, "HSK1").unknown_cards), vec!["b", "c", "k"]);
    workspace.delete_unknown(1);
    assert!(saved(&workspace));
    workspace.delete_known(0);
    assert!(saved(&workspace));
    assert!(stored(&workspace, "HSK1").known_cards.is_empty());
    assert!(workspace.shuffle_with(&vec![1, 0]));
    assert!(saved(&workspace));
    assert_eq!(words(&stored(&workspace, "HSK1").unknown_cards), vec!["k", "b"]);
    workspace.shuffle();
    assert!(saved(&workspace));
    workspace.import("x,y,z\nq,,r,true\n");
    assert!(saved(&workspace));
    assert_eq!(words(&stored(&workspace, "HSK1").unknown_cards), vec!["x"]);
    assert_eq!(words(&stored(&workspace, "HSK1").known_cards), vec!["q"]);
}

#[test]
fn changes_without_a_selected_dataset_touch_no_dataset() {
    let mut workspace = Workspace::new();
    workspace.create("HSK1".to_string()).unwrap();
    workspace.add("a".to_string(), None, "t".to_string());
    assert!(workspace.delete("HSK1"));
    workspace.create("HSK2".to_string()).unwrap();
    assert!(workspace.delete("HSK2"));
    workspace.create("kept".to_string()).unwrap();
    workspace.add("k".to_string(), None, "t".to_string());
    workspace.create("other".to_string()).unwrap();
    assert!(workspace.delete("other"));
    assert_eq!(workspace.current_dataset(), "");
    workspace.add("b".to_string(), None, "t".to_string());
    workspace.mark_known(0);
    assert_eq!(words(&stored(&workspace, "kept").unknown_cards), vec!["k"]);
    assert!(stored(&workspace, "kept").known_cards.is_empty());
}

#[test]
fn shuffle_without_unknown_cards_goes_back_to_the_first_stage() {
    let mut workspace = Workspace::new();
    workspace.create("one".to_string()).unwrap();
    workspace.load(&vec![known("k")]);
    workspace.cycle_stage();
    workspace.cycle_stage();
    assert_eq!(workspace.session().stage(), RevealStage::Third);
    workspace.shuffle();
    assert_eq!(workspace.session().stage(), RevealStage::First);
    assert_eq!(workspace.session().cursor_index(), 0);
    assert!(workspace.session().unknown_cards().is_empty());
    assert_eq!(words(workspace.session().known_cards()), vec!["k"]);
    assert!(saved(&workspace));
    workspace.cycle_stage();
    assert!(!workspace.shuffle_with(&vec![0]));
    assert_eq!(workspace.session().stage(), RevealStage::Second);
    assert!(workspace.shuffle_with(&Vec::new()));
    assert_eq!(workspace.session().stage(), RevealStage::First);
}

#[test]
fn select_loads_the_dataset() {
    let mut workspace = Workspace::new();
    workspace.create("one".to_string()).unwrap();
    workspace.load(&vec![unknown("a"), unknown("b"), known("k")]);
    workspace.create("two".to_string()).unwrap();
    workspace.add("x".to_string(), None, "t".to_string());
    workspace.toggle_direction();
    workspace.cycle_stage();
    assert_eq!(workspace.select("one"), Ok(()));
    assert_eq!(workspace.current_dataset(), "one");
    assert_eq!(words(workspace.session().unknown_cards()), vec!["a", "b"]);
    assert_eq!(words(workspace.session().known_cards()), vec!["k"]);
    assert_eq!(workspace.session().cursor_index(), 0);
    assert_eq!(workspace.session().stage(), RevealStage::First);
    assert_eq!(workspace.session().direction(), StudyDirection::Reverse);
    assert_eq!(words(&stored(&workspace, "two").unknown_cards), vec!["x"]);
    workspace.advance();
    assert_eq!(workspace.select("two"), Ok(()));
    assert_eq!(words(workspace.session().unknown_cards()), vec!["x"]);
    assert_eq!(workspace.session().cursor_index(), 0);
}

#[test]
fn select_of_a_missing_name_fails() {
    let mut workspace = Workspace::new();
    workspace.create("one".to_string()).unwrap();
    workspace.add("a".to_string(), None, "t".to_string());
    workspace.cycle_stage();
    assert_eq!(workspace.select("two"), Err(RegistryError::NotFound));
    assert_eq!(workspace.select(""), Err(RegistryError::NotFound));
    assert_eq!(workspace.current_dataset(), "one");
    assert_eq!(words(workspace.session().unknown_cards()), vec!["a"]);
    assert_eq!(workspace.session().stage(), RevealStage::Second);
}

#[test]
fn delete_of_the_selected_dataset_keeps_the_live_cards() {
    let mut workspace = Workspace::new();
    workspace.create("one".to_string()).unwrap();
    workspace.load(&vec![unknown("a"), known("k")]);
    workspace.cycle_stage();
    assert!(workspace.delete("one"));
    assert_eq!(workspace.current_dataset(), "");
    assert_eq!(workspace.registry().len(), 0);
    assert_eq!(words(workspace.session().unknown_cards()), vec!["a"]);
    assert_eq!(words(workspace.session().known_cards()), vec!["k"]);
    assert_eq!(workspace.session().stage(), RevealStage::Second);
}

#[test]
fn delete_of_another_dataset_keeps_the_selection() {
    let mut workspace = Workspace::new();
    workspace.create("one".to_string()).unwrap();
    workspace.create("two".to_string()).unwrap();
    workspace.add("x".to_string(), None, "t".to_string());
    assert!(workspace.delete("one"));
    assert_eq!(workspace.current_dataset(), "two");
    assert_eq!(workspace.registry().len(), 1);
    assert!(saved(&workspace));
    assert!(!workspace.delete("one"));
    assert!(!workspace.delete(""));
    assert_eq!(workspace.current_dataset(), "two");
    assert_eq!(workspace.registry().len(), 1);
}

#[test]
fn cursor_moves_leave_the_datasets_alone() {
    let mut workspace = Workspace::new();
    workspace.create("one".to_string()).unwrap();
    workspace.load(&vec![unknown("a"), unknown("b"), unknown("c")]);
    workspace.advance();
    assert_eq!(workspace.session().cursor_index(), 1);
    workspace.retreat();
    workspace.retreat();
    assert_eq!(workspace.session().cursor_index(), 2);
    workspace.cycle_stage();
    assert_eq!(workspace.session().stage(), RevealStage::Second);
    workspace.toggle_direction();
    assert_eq!(workspace.session().direction(), StudyDirection::Reverse);
    assert_eq!(workspace.session().stage(), RevealStage::First);
    assert!(saved(&workspace));
    assert_eq!(workspace.session().displayed_text(), Some("t".to_string()));
}

#[test]
fn snapshot_then_from_saved_gives_the_workspace_back() {
    let mut workspace = Workspace::new();
    workspace.create("one".to_string()).unwrap();
    workspace.load(&vec![unknown("a"), unknown("b"), known("k")]);
    workspace.create("two".to_string()).unwrap();
    workspace.add("x".to_string(), Some("p".to_string()), "t".to_string());
    workspace.add("y".to_string(), None, "t".to_string());
    workspace.advance();
    workspace.toggle_direction();
    workspace.cycle_stage();
    let kept = workspace.snapshot();
    assert_eq!(kept.cursor_index, 1);
    assert_eq!(kept.stage, RevealStage::Second);
    assert_eq!(kept.direction, StudyDirection::Reverse);
    assert_eq!(kept.current_dataset, "two");
    let datasets = workspace.registry().datasets().clone();
    let again = Workspace::from_saved(Some(kept), Some(datasets));
    assert_eq!(again.session().unknown_cards(), workspace.session().unknown_cards());
    assert_eq!(again.session().known_cards(), workspace.session().known_cards());
    assert_eq!(again.session().cursor_index(), 1);
    assert_eq!(again.session().stage(), RevealStage::Second);
    assert_eq!(again.session().direction(), StudyDirection::Reverse);
    assert_eq!(again.current_dataset(), "two");
    assert_eq!(again.registry().datasets(), workspace.registry().datasets());
}

#[test]
fn from_saved_without_anything_is_empty() {
    let workspace = Workspace::from_saved(None, None);
    assert!(workspace.session().unknown_cards().is_empty());
    assert!(workspace.session().known_cards().is_empty());
    assert_eq!(workspace.session().cursor_index(), 0);
    assert_eq!(workspace.session().stage(), RevealStage::First);
    assert_eq!(workspace.session().direction(), StudyDirection::Normal);
    assert_eq!(workspace.registry().len(), 0);
    assert_eq!(workspace.current_dataset(), "");
}

#[test]
fn from_saved_drops_a_session_that_does_not_fit() {
    let datasets = vec![Dataset {
        name: "one".to_string(),
        unknown_cards: vec![unknown("d")],
        known_cards: Vec::new(),
    }];
    let workspace = Workspace::from_saved(
        Some(snapshot(vec![unknown("a")], Vec::new(), 3, "one")),
        Some(datasets.clone()),
    );
    assert!(workspace.session().unknown_cards().is_empty());
    assert_eq!(workspace.session().stage(), RevealStage::First);
    assert_eq!(workspace.session().direction(), StudyDirection::Normal);
    assert_eq!(workspace.current_dataset(), "");
    assert_eq!(workspace.registry().datasets(), &datasets);
    let flagged = Workspace::from_saved(
        Some(snapshot(vec![known("a")], Vec::new(), 0, "")),
        None,
    );
    assert!(flagged.session().unknown_cards().is_empty());
}

#[test]
fn from_saved_drops_datasets_that_do_not_fit() {
    let datasets = vec![
        Dataset { name: "one".to_string(), unknown_cards: Vec::new(), known_cards: Vec::new() },
        Dataset { name: "one".to_string(), unknown_cards: Vec::new(), known_cards: Vec::new() },
    ];
    let workspace = Workspace::from_saved(
        Some(snapshot(vec![unknown("a"), unknown("b")], vec![known("k")], 1, "one")),
        Some(datasets),
    );
    assert_eq!(workspace.registry().len(), 0);
    assert_eq!(workspace.current_dataset(), "");
    assert_eq!(words(workspace.session().unknown_cards()), vec!["a", "b"]);
    assert_eq!(words(workspace.session().known_cards()), vec!["k"]);
    assert_eq!(workspace.session().cursor_index(), 1);
    assert_eq!(workspace.session().stage(), RevealStage::Second);
    assert_eq!(workspace.session().direction(), StudyDirection::Reverse);
}

#[test]
fn from_saved_writes_the_live_lists_to_the_selected_dataset() {
    let datasets = vec![
        Dataset { name: "one".to_string(), unknown_cards: vec![unknown("old")], known_cards: Vec::new() },
        Dataset { name: "two".to_string(), unknown_cards: vec![unknown("z")], known_cards: Vec::new() },
    ];
    let workspace = Workspace::from_saved(
        Some(snapshot(vec![unknown("a")], vec![known("k")], 0, "one")),
        Some(datasets),
    );
    assert_eq!(workspace.current_dataset(), "one");
    assert!(saved(&workspace));
    assert_eq!(words(&stored(&workspace, "one").unknown_cards), vec!["a"]);
    assert_eq!(words(&stored(&workspace, "one").known_cards), vec!["k"]);
    assert_eq!(words(&stored(&workspace, "two").unknown_cards), vec!["z"]);
}

#[test]
fn from_saved_forgets_a_selection_that_the_registry_lacks() {
    let workspace = Workspace::from_saved(
        Some(snapshot(vec![unknown("a")], Vec::new(), 0, "gone")),
        Some(Vec::new()),
    );
    assert_eq!(workspace.current_dataset(), "");
    assert_eq!(words(workspace.session().unknown_cards()), vec!["a"]);
}

#[test]
fn workspace_clone_is_equal() {
    let mut workspace = Workspace::new();
    workspace.create("one".to_string()).unwrap();
    workspace.add("a".to_string(), None, "t".to_string());
    let copy = workspace.clone();
    assert_eq!(copy.current_dataset(), "one");
    assert_eq!(copy.session().unknown_cards(), workspace.session().unknown_cards());
    assert_eq!(copy.registry().datasets(), workspace.registry().datasets());
}
