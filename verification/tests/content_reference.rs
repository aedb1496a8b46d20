use liber::content_reference::ContentReference;

fn cr(title: &str) -> ContentReference {
    ContentReference::new(title)
}

#[test]
fn test_add_subcontent_reference_initial() {
    let parent_title = "Section A";
    let child_title = "Subsection A.1";

    let child_ref = cr(child_title);
    let parent_ref = cr(parent_title).add_child(child_ref.clone());

    assert!(parent_ref.subcontent_references.is_some());

    let subs = parent_ref.subcontent_references.as_ref().unwrap();
    assert_eq!(subs.len(), 1);
    assert_eq!(subs[0].title, child_title);
}

#[test]
fn test_add_subcontent_reference_multiple() {
    let parent_title = "Book";
    let child1_title = "Chapter 1";
    let child2_title = "Chapter 2";

    let child1_ref = cr(child1_title);
    let child2_ref = cr(child2_title);

    let parent_ref = cr(parent_title).add_child(child1_ref).add_child(child2_ref);

    let subs = parent_ref.subcontent_references.as_ref().unwrap();
    assert_eq!(subs.len(), 2);

    assert_eq!(subs[0].title, child1_title);
    assert_eq!(subs[1].title, child2_title);
}

#[test]
fn test_level_no_subcontent() {
    let reference = cr("Leaf Node");
    assert_eq!(reference.level(), 0);
}

#[test]
fn test_level_one_deep() {
    let child = cr("Child");
    let parent = cr("Parent").add_child(child);

    assert_eq!(parent.level(), 1);
}

#[test]
fn test_level_two_deep() {
    let child = cr("Child");
    let parent = cr("Parent").add_child(child);
    let grandparent = cr("Grandparent").add_child(parent);

    assert_eq!(grandparent.level(), 2);
}

#[test]
fn test_level_sibling_doesnt_change_depth() {
    let child1 = cr("Child1");
    let child2 = cr("Child2");
    let root = cr("Root").add_child(child1).add_child(child2);

    assert_eq!(root.level(), 1);
}

#[test]
fn test_level_mixed_depth_only_first_matters() {
    let sub_deep = cr("SubDeep");
    let deep_child = cr("DeepChild").add_child(sub_deep);
    let shallow_child = cr("ShallowChild");

    let root = cr("Root").add_child(deep_child).add_child(shallow_child);

    assert_eq!(root.level(), 2);

    let sub_deep_2 = cr("SubDeep_2");
    let deep_child_2 = cr("DeepChild_2").add_child(sub_deep_2);
    let shallow_child_2 = cr("ShallowChild_2");

    let root_2 = cr("Root_2").add_child(shallow_child_2).add_child(deep_child_2);

    assert_eq!(root_2.level(), 1);
}

#[test]
fn test_reference_name_explicit_and_sequential() {
    let with_id = cr("Entry").id("mark");
    assert_eq!(with_id.reference_name("c03.xhtml", 9), "c03.xhtml#mark");

    let without = cr("Entry");
    assert_eq!(without.reference_name("c03.xhtml", 9), "c03.xhtml#id09");
    assert_eq!(without.reference_name("c03.xhtml", 42), "c03.xhtml#id42");
}
