use media_catalog::entries::{group_by_category, CategoryListModel, EntryListModel, EntryRow};

fn row(id: &str, name: &str, category: Option<(&str, &str)>) -> EntryRow {
    EntryRow {
        entry_id: id.to_string(),
        entry_name: name.to_string(),
        entry_image_url: format!("https://img/{}", id),
        entry_visible: true,
        entry_play_count: 3,
        category_id: category.map(|c| c.0.to_string()),
        category_name: category.map(|c| c.1.to_string()),
    }
}

fn names(groups: &[CategoryListModel]) -> Vec<String> {
    groups.iter().map(|g| g.name.clone()).collect()
}

fn ids(group: &CategoryListModel) -> Vec<String> {
    group.entries.iter().map(|e| e.id.clone()).collect()
}

#[test]
fn groups_rows_by_category_sorted_by_name() {
    let rows = vec![
        row("e1", "Alpha", Some(("c2", "Zoo"))),
        row("e2", "Beta", None),
        row("e3", "Gamma", Some(("c1", "Animals"))),
        row("e4", "Delta", Some(("c2", "Zoo"))),
    ];
    let groups = group_by_category(&rows);
    assert_eq!(names(&groups), vec!["", "Animals", "Zoo"]);
    assert_eq!(ids(&groups[0]), vec!["e2"]);
    assert_eq!(ids(&groups[1]), vec!["e3"]);
    assert_eq!(ids(&groups[2]), vec!["e1", "e4"]);
    assert_eq!(
        groups[2].entries[1],
        EntryListModel {
            id: "e4".to_string(),
            name: "Delta".to_string(),
            image_url: "https://img/e4".to_string(),
            visible: true,
            play_count: 3,
        }
    );
}

#[test]
fn no_rows_give_no_categories() {
    assert!(group_by_category(&vec![]).is_empty());
}

#[test]
fn categories_of_one_name_are_ordered_by_entries() {
    let rows = vec![
        row("b", "First", Some(("c1", "Same"))),
        row("a", "Second", Some(("c2", "Same"))),
    ];
    let groups = group_by_category(&rows);
    assert_eq!(names(&groups), vec!["Same", "Same"]);
    assert_eq!(ids(&groups[0]), vec!["a"]);
    assert_eq!(ids(&groups[1]), vec!["b"]);
}

#[test]
fn category_named_by_its_first_row() {
    let rows = vec![
        row("e1", "A", Some(("c1", "Old name"))),
        row("e2", "B", Some(("c1", "New name"))),
    ];
    let groups = group_by_category(&rows);
    assert_eq!(names(&groups), vec!["Old name"]);
    assert_eq!(ids(&groups[0]), vec!["e1", "e2"]);
}

#[test]
fn grouping_agrees_with_derived_order() {
    let rows = vec![
        row("e5", "Echo", Some(("c3", "bravo"))),
        row("e1", "Alpha", Some(("c2", "Bravo"))),
        row("e2", "Beta", None),
        row("e3", "Charlie", Some(("c1", "Äpfel"))),
        row("e4", "Delta", Some(("c4", "Bravo"))),
        row("e6", "Foxtrot", Some(("c2", "Bravo"))),
    ];
    let groups = group_by_category(&rows);
    assert_eq!(groups.len(), 5);
    assert!(groups.windows(2).all(|w| w[0] <= w[1]));
    let mut sorted = groups.clone();
    sorted.sort();
    assert_eq!(groups, sorted);
    assert_eq!(names(&groups), vec!["", "Bravo", "Bravo", "bravo", "Äpfel"]);
}

#[test]
fn grouping_keeps_every_row() {
    let rows = vec![
        row("e1", "A", Some(("c1", "One"))),
        row("e2", "B", None),
        row("e3", "C", Some(("c2", "Two"))),
        row("e4", "D", Some(("c1", "One"))),
        row("e5", "E", None),
    ];
    let groups = group_by_category(&rows);
    assert_eq!(groups.len(), 3);
    let total: usize = groups.iter().map(|g| g.entries.len()).sum();
    assert_eq!(total, rows.len());
}
