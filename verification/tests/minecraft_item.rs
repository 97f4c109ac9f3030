use cit_item::catalog::Catalog;
use cit_item::minecraft_item::MinecraftItem;

fn small_catalog() -> Catalog {
    Catalog::from_lines("stone\ndiamond\nemerald\ngold_ingot\n")
}

#[test]
fn known_identifier_is_wrapped_unchanged() {
    let catalog = small_catalog();
    let item = MinecraftItem::new("diamond", &catalog).unwrap();
    assert_eq!(item.id(), "diamond");
}

#[test]
fn unknown_identifier_is_turned_down_under_its_name() {
    let catalog = small_catalog();
    let error = MinecraftItem::new("ruby", &catalog).unwrap_err();
    assert_eq!(error.id(), "ruby");
    assert_eq!(error.message(), "No item with such id");
}

#[test]
fn lookup_is_exact() {
    let catalog = small_catalog();
    assert!(MinecraftItem::new("Diamond", &catalog).is_err());
    assert!(MinecraftItem::new("minecraft:diamond", &catalog).is_err());
    assert!(MinecraftItem::new(" diamond", &catalog).is_err());
    assert!(MinecraftItem::new("", &catalog).is_err());
}

#[test]
fn sift_keeps_the_known_in_order() {
    let catalog = small_catalog();
    let (known, unknown) =
        MinecraftItem::sift(&["emerald", "ruby", "stone", "sapphire", "diamond"], &catalog);
    let known: Vec<&str> = known.iter().map(|item| item.id()).collect();
    let unknown: Vec<&str> = unknown.iter().map(|error| error.id()).collect();
    assert_eq!(known, vec!["emerald", "stone", "diamond"]);
    assert_eq!(unknown, vec!["ruby", "sapphire"]);
}

#[test]
fn sift_keeps_repeated_identifiers() {
    let catalog = small_catalog();
    let (known, unknown) = MinecraftItem::sift(&["stone", "ruby", "stone", "ruby"], &catalog);
    let known: Vec<&str> = known.iter().map(|item| item.id()).collect();
    let unknown: Vec<&str> = unknown.iter().map(|error| error.id()).collect();
    assert_eq!(known, vec!["stone", "stone"]);
    assert_eq!(unknown, vec!["ruby", "ruby"]);
}

#[test]
fn sift_of_nothing_gives_nothing() {
    let catalog = small_catalog();
    let (known, unknown) = MinecraftItem::sift(&[], &catalog);
    assert!(known.is_empty());
    assert!(unknown.is_empty());
}

#[test]
fn sift_with_all_known_or_all_unknown() {
    let catalog = small_catalog();
    let (known, unknown) = MinecraftItem::sift(&["stone", "diamond"], &catalog);
    assert_eq!(known.len(), 2);
    assert!(unknown.is_empty());
    let (known, unknown) = MinecraftItem::sift(&["ruby", "opal"], &catalog);
    assert!(known.is_empty());
    assert_eq!(unknown.len(), 2);
}
