use flashcards::card::Card;
use flashcards::registry::{Dataset, DatasetRegistry, RegistryError};

fn unknown(word: &str) -> Card {
    Card { word: word.to_string(), pinyin: None, translation: "t".to_string(), known: false }
}

fn known(word: &str) -> Card {
    Card { word: word.to_string(), pinyin: None, translation: "t".to_string(), known: true }
}

fn dataset(name: &str, unknown_cards: Vec<Card>, known_cards: Vec<Card>) -> Dataset {
    Dataset { name: name.to_string(), unknown_cards, known_cards }
}

fn names(registry: &DatasetRegistry) -> Vec<String> {
    registry.datasets().iter().map(|d| d.name.clone()).collect()
}

#[test]
fn create_appends_an_empty_dataset() {
    let mut registry = DatasetRegistry::new();
    assert_eq!(registry.len(), 0);
    assert_eq!(registry.create("HSK1".to_string()), Ok(()));
    assert_eq!(registry.create("HSK2".to_string()), Ok(()));
    assert_eq!(registry.len(), 2);
    assert_eq!(names(&registry), vec!["HSK1", "HSK2"]);
    assert_eq!(registry.datasets()[0], dataset("HSK1", Vec::new(), Vec::new()));
}

#[test]
fn create_refuses_a_taken_name() {
    let mut registry = DatasetRegistry::new();
    assert_eq!(registry.create("HSK1".to_string()), Ok(()));
    assert_eq!(registry.create("HSK1".to_string()), Err(RegistryError::DuplicateName));
    assert_eq!(registry.len(), 1);
}

#[test]
fn create_refuses_an_empty_name() {
    let mut registry = DatasetRegistry::new();
    assert_eq!(registry.create(String::new()), Err(RegistryError::DuplicateName));
    assert_eq!(registry.len(), 0);
}

#[test]
fn position_and_get_find_by_name() {
    let mut registry = DatasetRegistry::new();
    registry.create("a".to_string()).unwrap();
    registry.create("b".to_string()).unwrap();
    assert_eq!(registry.position("a"), Some(0));
    assert_eq!(registry.position("b"), Some(1));
    assert_eq!(registry.position("c"), None);
    assert_eq!(registry.position(""), None);
    assert!(registry.contains("b"));
    assert!(!registry.contains("B"));
    assert_eq!(registry.get("b").map(|d| d.name.clone()), Some("b".to_string()));
    assert!(registry.get("c").is_none());
}

#[test]
fn remove_drops_the_named_dataset() {
    let mut registry = DatasetRegistry::new();
    registry.create("a".to_string()).unwrap();
    registry.create("b".to_string()).unwrap();
    registry.create("c".to_string()).unwrap();
    assert!(registry.remove("b"));
    assert_eq!(names(&registry), vec!["a", "c"]);
    assert!(!registry.remove("b"));
    assert_eq!(names(&registry), vec!["a", "c"]);
    assert_eq!(registry.create("b".to_string()), Ok(()));
    assert_eq!(names(&registry), vec!["a", "c", "b"]);
}

#[test]
fn store_replaces_the_lists() {
    let mut registry = DatasetRegistry::new();
    registry.create("a".to_string()).unwrap();
    registry.create("b".to_string()).unwrap();
    assert!(registry.store("b", vec![unknown("u")], vec![known("k1"), known("k2")]));
    assert_eq!(registry.datasets()[0], dataset("a", Vec::new(), Vec::new()));
    assert_eq!(
        registry.datasets()[1],
        dataset("b", vec![unknown("u")], vec![known("k1"), known("k2")])
    );
    assert!(!registry.store("c", vec![unknown("u")], Vec::new()));
    assert_eq!(registry.len(), 2);
    assert_eq!(registry.datasets()[0], dataset("a", Vec::new(), Vec::new()));
}

#[test]
fn store_refuses_lists_with_wrong_flags() {
    let mut registry = DatasetRegistry::new();
    registry.create("a".to_string()).unwrap();
    assert!(registry.store("a", vec![unknown("u")], vec![known("k")]));
    assert!(!registry.store("a", vec![known("x")], Vec::new()));
    assert!(!registry.store("a", Vec::new(), vec![unknown("x")]));
    assert_eq!(registry.datasets()[0], dataset("a", vec![unknown("u")], vec![known("k")]));
}

#[test]
fn from_datasets_accepts_what_fits() {
    let registry = DatasetRegistry::from_datasets(vec![
        dataset("a", vec![unknown("u")], vec![known("k")]),
        dataset("b", Vec::new(), Vec::new()),
    ])
    .unwrap();
    assert_eq!(names(&registry), vec!["a", "b"]);
    assert_eq!(registry.datasets()[0].unknown_cards, vec![unknown("u")]);
    assert!(DatasetRegistry::from_datasets(Vec::new()).is_some());
}

#[test]
fn from_datasets_refuses_what_does_not_fit() {
    assert!(DatasetRegistry::from_datasets(vec![
        dataset("a", Vec::new(), Vec::new()),
        dataset("b", Vec::new(), Vec::new()),
        dataset("a", Vec::new(), Vec::new()),
    ])
    .is_none());
    assert!(DatasetRegistry::from_datasets(vec![dataset("", Vec::new(), Vec::new())]).is_none());
    assert!(DatasetRegistry::from_datasets(vec![dataset("a", vec![known("k")], Vec::new())])
        .is_none());
    assert!(DatasetRegistry::from_datasets(vec![dataset("a", Vec::new(), vec![unknown("u")])])
        .is_none());
}

#[test]
fn registry_clone_is_equal() {
    let mut registry = DatasetRegistry::new();
    registry.create("a".to_string()).unwrap();
    registry.store("a", vec![unknown("u")], vec![known("k")]);
    let copy = registry.clone();
    assert_eq!(copy.datasets(), registry.datasets());
    assert_eq!(registry.datasets()[0].clone(), registry.datasets()[0]);
}
