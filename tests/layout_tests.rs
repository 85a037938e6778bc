use toeditor::export::csv::{csv_document, csv_escape};
use toeditor::export::svg::{svg_document, xml_escape};
use toeditor::layout::{
    checked_subtree_width, depth_within, layout_fits, layout_unit, layout_units, max_depth, subtree_width, LayoutNode,
    BOX_WIDTH, H_SPACING,
};
use toeditor::models::{Equipment, Library, Personnel, Unit};
use toeditor::pipeline::render;

fn leaf(name: &str) -> Unit {
    Unit::new(name.to_string(), "squad".to_string())
}

fn same_layout(a: &LayoutNode, b: &LayoutNode) -> bool {
    a.x == b.x
        && a.y == b.y
        && a.label == b.label
        && a.sublabel == b.sublabel
        && a.children.len() == b.children.len()
        && a.children.iter().zip(b.children.iter()).all(|(x, y)| same_layout(x, y))
}

fn platoon_with_two_squads() -> Unit {
    let mut platoon = Unit::new("Platoon".to_string(), "platoon".to_string());
    platoon.add_child(leaf("Alpha Squad"));
    platoon.add_child(leaf("Bravo Squad"));
    platoon
}

#[test]
fn test_subtree_width_leaf() {
    let unit = Unit::new("Leaf".to_string(), "squad".to_string());
    assert_eq!(subtree_width(&unit), BOX_WIDTH);
}

#[test]
fn test_subtree_width_with_children() {
    let mut parent = Unit::new("Parent".to_string(), "platoon".to_string());
    parent.children.push(Unit::new("A".to_string(), "squad".to_string()));
    parent.children.push(Unit::new("B".to_string(), "squad".to_string()));
    let expected = BOX_WIDTH * 2 + H_SPACING;
    assert!((subtree_width(&parent) as f64 - expected as f64).abs() < 0.01);
}

#[test]
fn subtree_width_never_below_one_box() {
    let mut parent = Unit::new("Parent".to_string(), "platoon".to_string());
    parent.add_child(leaf("Only"));
    assert_eq!(subtree_width(&parent), 160);
    let mut top = Unit::new("Top".to_string(), "company".to_string());
    top.add_child(platoon_with_two_squads());
    top.add_child(leaf("HQ"));
    assert_eq!(subtree_width(&top), 350 + 30 + 160);
}

#[test]
fn layout_single_root_scenario() {
    let mut platoon = Unit::new("1st Platoon".to_string(), "platoon".to_string());
    platoon.add_personnel(Personnel::new("Leader".to_string()));
    platoon.add_equipment(Equipment::new("Rifle".to_string(), 10));
    let nodes = layout_units(&vec![platoon]);
    assert_eq!(nodes.len(), 1);
    assert_eq!(nodes[0].x, 40);
    assert_eq!(nodes[0].y, 70);
    assert_eq!(nodes[0].label, "1st Platoon");
    assert_eq!(nodes[0].sublabel, "P:1 E:10");
    assert!(nodes[0].children.is_empty());
}

#[test]
fn layout_two_children_centered_under_parent() {
    let platoon = platoon_with_two_squads();
    assert_eq!(subtree_width(&platoon), 350);
    let nodes = layout_units(&vec![platoon]);
    let root = &nodes[0];
    assert_eq!(root.x, 40 + 175 - 80);
    assert_eq!(root.children.len(), 2);
    let a = &root.children[0];
    let b = &root.children[1];
    assert_eq!(a.x, 40);
    assert_eq!(b.x, 40 + 160 + 30);
    assert_eq!(a.y, 70 + 110);
    assert_eq!(b.y, 70 + 110);
    assert_eq!(a.label, "Alpha Squad");
    assert_eq!(b.label, "Bravo Squad");
    assert_eq!(a.sublabel, "P:0 E:0");
    let parent_center = root.x + 80;
    assert_eq!((a.x + 80 + b.x + 80) / 2, parent_center);
}

#[test]
fn layout_roots_side_by_side() {
    let units = vec![platoon_with_two_squads(), leaf("HQ")];
    let nodes = layout_units(&units);
    assert_eq!(nodes.len(), 2);
    assert_eq!(nodes[1].x, 40 + 350 + 60);
    assert_eq!(nodes[1].y, 70);
    assert_eq!(max_depth(&nodes[0]), 2);
    assert_eq!(max_depth(&nodes[1]), 1);
}

#[test]
fn layout_is_deterministic() {
    let units = vec![platoon_with_two_squads(), leaf("HQ")];
    let first = layout_units(&units);
    let second = layout_units(&units);
    assert_eq!(first.len(), second.len());
    for (a, b) in first.iter().zip(second.iter()) {
        assert!(same_layout(a, b));
    }
}

#[test]
fn layout_box_centered_in_allocated_interval() {
    let unit = platoon_with_two_squads();
    let node = layout_unit(&unit, 100, 10, 500);
    assert_eq!(node.x + 80, 100 + 250);
    assert_eq!(node.y, 10);
    assert_eq!(node.children[0].x, 350 - 175);
}

#[test]
fn render_uses_live_units() {
    let mut library = Library::new("L".to_string(), "US".to_string(), "2003".to_string(), "A".to_string());
    library.add_unit(leaf("One"));
    let nodes = render(&library);
    assert_eq!(nodes.len(), 1);
    assert_eq!(nodes[0].label, "One");
}

#[test]
fn test_xml_escape() {
    assert_eq!(xml_escape("a & b"), "a &amp; b");
    assert_eq!(xml_escape("<tag>"), "&lt;tag&gt;");
    assert_eq!(xml_escape("\"quoted\""), "&quot;quoted&quot;");
}

#[test]
fn svg_document_empty_library() {
    let library = Library::new("Test".to_string(), "US".to_string(), "2003".to_string(), "Author".to_string());
    let content = svg_document(&library);
    assert!(content.contains("Test"));
    assert!(content.contains("svg"));
    assert!(content.contains("no units"));
    assert!(content.contains("width=\"400\" height=\"100\""));
}

#[test]
fn svg_document_with_units() {
    let mut library = Library::new("US Army".to_string(), "US".to_string(), "2003".to_string(), "Author".to_string());
    let mut platoon = Unit::new("1st Platoon".to_string(), "platoon".to_string());
    platoon.personnel.push(Personnel::new("Leader".to_string()));
    platoon.equipment.push(Equipment::new("Rifle".to_string(), 10));
    platoon.children.push(leaf("Alpha Squad"));
    platoon.children.push(leaf("Bravo Squad"));
    library.units.push(platoon);
    let content = svg_document(&library);
    assert!(content.contains("US Army"));
    assert!(content.contains("1st Platoon"));
    assert!(content.contains("Alpha Squad"));
    assert!(content.contains("Bravo Squad"));
    assert!(content.contains("rect"));
    assert!(content.contains("path"));
    assert!(content.contains("width=\"490\" height=\"300\""));
    assert!(content.contains("<path d=\"M215,120 L215,150 L120,150 L120,180\""));
    assert!(content.contains("<rect x=\"135\" y=\"70\" width=\"160\""));
    assert!(content.contains(">P:1 E:10</text>"));
    assert!(content.ends_with("\n</svg>"));
}

#[test]
fn svg_document_escapes_special_characters() {
    let mut library = Library::new("A & B".to_string(), "US".to_string(), "2003".to_string(), "Author".to_string());
    library.add_unit(leaf("<Alpha>"));
    let content = svg_document(&library);
    assert!(content.contains("A &amp; B"));
    assert!(content.contains("&lt;Alpha&gt;"));
    assert!(!content.contains("<Alpha>"));
}

#[test]
fn test_csv_escape_plain() {
    assert_eq!(csv_escape("hello"), "hello");
}

#[test]
fn test_csv_escape_comma() {
    assert_eq!(csv_escape("hello, world"), "\"hello, world\"");
}

#[test]
fn test_csv_escape_quotes() {
    assert_eq!(csv_escape("say \"hi\""), "\"say \"\"hi\"\"\"");
}

#[test]
fn csv_document_empty_library() {
    let library = Library::new("Test".to_string(), "US".to_string(), "2003".to_string(), "Author".to_string());
    let content = csv_document(&library);
    assert_eq!(content, "Unit,Type,Parent,Personnel,Equipment\n# Library: Test | Country: US | Era: 2003");
}

#[test]
fn csv_document_with_units() {
    let mut library = Library::new("Test".to_string(), "US".to_string(), "2003".to_string(), "Author".to_string());
    let mut unit = Unit::new("1st Platoon".to_string(), "platoon".to_string());
    unit.personnel.push(Personnel::new("Platoon Leader".to_string()));
    unit.equipment.push(Equipment::new("Rifle".to_string(), 30));
    unit.equipment.push(Equipment::new("Radio".to_string(), 2));
    unit.add_child(leaf("Alpha, Squad"));
    library.units.push(unit);
    let content = csv_document(&library);
    assert_eq!(
        content,
        "Unit,Type,Parent,Personnel,Equipment\n1st Platoon,platoon,,1,30xRifle; 2xRadio\n\"Alpha, Squad\",squad,1st Platoon,0,"
    );
}

#[test]
fn layout_bound_checks() {
    let platoon = platoon_with_two_squads();
    assert_eq!(checked_subtree_width(&platoon), Some(350));
    assert!(depth_within(&platoon, 2));
    assert!(!depth_within(&platoon, 1));
    assert!(layout_fits(&vec![platoon, leaf("HQ")]));
    assert!(layout_fits(&Vec::new()));
}
