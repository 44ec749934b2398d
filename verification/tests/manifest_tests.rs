use docscan::items::CheckItem;
use docscan::manifest::{manifest_items, ManifestProduct};

fn product(path: Option<&str>, doctest: bool) -> ManifestProduct {
    ManifestProduct { path: path.map(|p| p.to_owned()), doctest }
}

#[test]
fn manifest_entries() {
    let products = vec![product(Some("src/main.rs"), true)];
    let items = manifest_items("/proj", &products, None, false, None);
    assert_eq!(items, vec![CheckItem::Source("/proj/src/main.rs".to_owned())]);
}

#[test]
fn ineligible_or_pathless_products_are_dropped() {
    let products = vec![
        product(Some("src/main.rs"), true),
        product(Some("src/skip.rs"), false),
        product(None, true),
        product(Some("src/extra.rs"), true),
    ];
    let items = manifest_items("/proj", &products, None, false, None);
    assert_eq!(
        items,
        vec![
            CheckItem::Source("/proj/src/main.rs".to_owned()),
            CheckItem::Source("/proj/src/extra.rs".to_owned()),
        ]
    );
}

#[test]
fn readme_and_description_follow_the_products() {
    let products = vec![product(Some("src/main.rs"), true)];
    let readme = "README.md".to_owned();
    let description = "a fine tool".to_owned();
    let items = manifest_items("/proj", &products, Some(&readme), true, Some(&description));
    assert_eq!(
        items,
        vec![
            CheckItem::Source("/proj/src/main.rs".to_owned()),
            CheckItem::Markdown("/proj/README.md".to_owned()),
            CheckItem::ManifestDescription("a fine tool".to_owned()),
        ]
    );
}

#[test]
fn missing_readme_file_is_dropped_not_fatal() {
    let readme = "README.md".to_owned();
    let items = manifest_items("/proj", &Vec::new(), Some(&readme), false, None);
    assert_eq!(items, Vec::<CheckItem>::new());
}

#[test]
fn description_alone_yields_one_item() {
    let description = "only words".to_owned();
    let items = manifest_items("/proj", &Vec::new(), None, false, Some(&description));
    assert_eq!(items, vec![CheckItem::ManifestDescription("only words".to_owned())]);
}
