//! Vector diagram (SVG) of a library's layout.

use vstd::prelude::*;
use vstd::string::*;
use crate::layout::{
    canvas_height_of, canvas_width_of, forest_depth, forest_fits, is_forest_layout, layout_units,
    lemma_forest_bounds, lemma_layout_depth, lemma_width_bounds, max_depth, root_layout, root_left,
    subtree_width, subtree_width_of, top_row, unit_depth, LayoutBox, LayoutNode, BOX_HEIGHT, BOX_WIDTH,
    COORD_LIMIT, H_SPACING, PADDING, V_SPACING,
};
use crate::models::library::{Library, Unit};
use crate::models::version::join_lines;
use crate::text::{decimal, push_char, write_decimal};

verus! {

/// The escaped form of one character in XML text or attributes.
pub open spec fn xml_char(c: char) -> Seq<char> {
    if c == '&' {
        "&amp;"@
    } else if c == '<' {
        "&lt;"@
    } else if c == '>' {
        "&gt;"@
    } else if c == '"' {
        "&quot;"@
    } else {
        seq![c]
    }
}

/// `s` with `&`, `<`, `>` and `"` escaped for XML.
pub open spec fn xml_escaped(s: Seq<char>) -> Seq<char>
    decreases s.len(),
{
    if s.len() == 0 {
        Seq::empty()
    } else {
        xml_escaped(s.drop_last()) + xml_char(s.last())
    }
}

/// Escapes special XML characters.
pub fn xml_escape(s: &str) -> (r: String)
    ensures
        r@ == xml_escaped(s@),
{
    let mut r = String::new();
    let n = s.unicode_len();
    let mut i: usize = 0;
    while i < n
        invariant
            n == s@.len(),
            i <= n,
            r@ == xml_escaped(s@.subrange(0, i as int)),
        decreases n - i,
    {
        let c = s.get_char(i);
        if c == '&' {
            r.append("&amp;");
        } else if c == '<' {
            r.append("&lt;");
        } else if c == '>' {
            r.append("&gt;");
        } else if c == '"' {
            r.append("&quot;");
        } else {
            push_char(&mut r, c);
        }
        assert(s@.subrange(0, i + 1).drop_last() =~= s@.subrange(0, i as int));
        assert(r@ =~= xml_escaped(s@.subrange(0, i + 1)));
        i = i + 1;
    }
    assert(s@.subrange(0, n as int) =~= s@);
    r
}

pub open spec fn num(n: int) -> Seq<char> {
    decimal(n as nat)
}

/// Connector from a box to one of its children: down to the middle of the
/// gap between the rows, across to the child's center, down to its top.
pub open spec fn connector_line(p: LayoutBox, c: LayoutBox) -> Seq<char> {
    let px = p.x + BOX_WIDTH / 2;
    let py = p.y + BOX_HEIGHT;
    let my = py + V_SPACING / 2;
    let cx = c.x + BOX_WIDTH / 2;
    "  <path d=\"M"@ + num(px) + ","@ + num(py) + " L"@ + num(px) + ","@ + num(my) + " L"@ + num(cx)
        + ","@ + num(my) + " L"@ + num(cx) + ","@ + num(c.y)
        + "\" fill=\"none\" stroke=\"#666\" stroke-width=\"1.5\"/>"@
}

pub open spec fn rect_line(b: LayoutBox) -> Seq<char> {
    "  <rect x=\""@ + num(b.x) + "\" y=\""@ + num(b.y)
        + "\" width=\"160\" height=\"50\" rx=\"6\" ry=\"6\" fill=\"#f0f4f8\" stroke=\"#4a6fa5\" stroke-width=\"1.5\"/>"@
}

pub open spec fn label_line(b: LayoutBox) -> Seq<char> {
    "  <text x=\""@ + num(b.x + BOX_WIDTH / 2) + "\" y=\""@ + num(b.y + 20)
        + "\" text-anchor=\"middle\" font-size=\"12\" font-family=\"sans-serif\" fill=\"#1a1a2e\">"@
        + xml_escaped(b.label) + "</text>"@
}

pub open spec fn sublabel_line(b: LayoutBox) -> Seq<char> {
    "  <text x=\""@ + num(b.x + BOX_WIDTH / 2) + "\" y=\""@ + num(b.y + 38)
        + "\" text-anchor=\"middle\" font-size=\"10\" font-family=\"sans-serif\" fill=\"#666\">"@
        + xml_escaped(b.sublabel) + "</text>"@
}

/// Connectors from `b` to its first `k` children.
pub open spec fn connector_lines(b: LayoutBox, k: int) -> Seq<Seq<char>>
    decreases k,
{
    if k <= 0 || k > b.children.len() {
        Seq::empty()
    } else {
        connector_lines(b, k - 1).push(connector_line(b, b.children[k - 1]))
    }
}

/// Elements of a laid-out tree: the connectors to the children, the box and
/// its two text lines, then each child's elements, depth first.
pub open spec fn node_lines(b: LayoutBox) -> Seq<Seq<char>>
    decreases b, 1int, 0int,
{
    connector_lines(b, b.children.len() as int) + seq![rect_line(b), label_line(b), sublabel_line(b)]
        + children_lines(b, b.children.len() as int)
}

/// Elements of the first `k` children of `b`.
pub open spec fn children_lines(b: LayoutBox, k: int) -> Seq<Seq<char>>
    decreases b, 0int, k,
{
    if k <= 0 || k > b.children.len() {
        Seq::empty()
    } else {
        children_lines(b, k - 1) + node_lines(b.children[k - 1])
    }
}

pub open spec fn strings_view(v: Seq<String>) -> Seq<Seq<char>> {
    v.map_values(|s: String| s@)
}

fn push_line(elements: &mut Vec<String>, line: String)
    ensures
        strings_view(final(elements)@) == strings_view(old(elements)@).push(line@),
{
    elements.push(line);
    assert(strings_view(final(elements)@) =~= strings_view(old(elements)@).push(line@));
}

fn connector_text(p: &LayoutNode, c: &LayoutNode) -> (r: String)
    ensures
        r@ == connector_line(p@, c@),
{
    let px = p.x as u128 + 80;
    let py = p.y as u128 + 50;
    let my = py + 30;
    let cx = c.x as u128 + 80;
    let mut r = String::from_str("  <path d=\"M");
    write_decimal(&mut r, px);
    r.append(",");
    write_decimal(&mut r, py);
    r.append(" L");
    write_decimal(&mut r, px);
    r.append(",");
    write_decimal(&mut r, my);
    r.append(" L");
    write_decimal(&mut r, cx);
    r.append(",");
    write_decimal(&mut r, my);
    r.append(" L");
    write_decimal(&mut r, cx);
    r.append(",");
    write_decimal(&mut r, c.y as u128);
    r.append("\" fill=\"none\" stroke=\"#666\" stroke-width=\"1.5\"/>");
    r
}

fn rect_text(b: &LayoutNode) -> (r: String)
    ensures
        r@ == rect_line(b@),
{
    let mut r = String::from_str("  <rect x=\"");
    write_decimal(&mut r, b.x as u128);
    r.append("\" y=\"");
    write_decimal(&mut r, b.y as u128);
    r.append(
        "\" width=\"160\" height=\"50\" rx=\"6\" ry=\"6\" fill=\"#f0f4f8\" stroke=\"#4a6fa5\" stroke-width=\"1.5\"/>",
    );
    r
}

fn label_text(b: &LayoutNode) -> (r: String)
    ensures
        r@ == label_line(b@),
{
    let mut r = String::from_str("  <text x=\"");
    write_decimal(&mut r, b.x as u128 + 80);
    r.append("\" y=\"");
    write_decimal(&mut r, b.y as u128 + 20);
    r.append("\" text-anchor=\"middle\" font-size=\"12\" font-family=\"sans-serif\" fill=\"#1a1a2e\">");
    let e = xml_escape(b.label.as_str());
    r.append(e.as_str());
    r.append("</text>");
    r
}

fn sublabel_text(b: &LayoutNode) -> (r: String)
    ensures
        r@ == sublabel_line(b@),
{
    let mut r = String::from_str("  <text x=\"");
    write_decimal(&mut r, b.x as u128 + 80);
    r.append("\" y=\"");
    write_decimal(&mut r, b.y as u128 + 38);
    r.append("\" text-anchor=\"middle\" font-size=\"10\" font-family=\"sans-serif\" fill=\"#666\">");
    let e = xml_escape(b.sublabel.as_str());
    r.append(e.as_str());
    r.append("</text>");
    r
}

/// Appends the elements of a laid-out tree.
pub fn render_node(node: &LayoutNode, elements: &mut Vec<String>)
    ensures
        strings_view(final(elements)@) == strings_view(old(elements)@) + node_lines(node@),
    decreases *node,
{
    let ghost start = strings_view(elements@);
    let n = node.children.len();
    let mut i: usize = 0;
    while i < n
        invariant
            n == node.children@.len(),
            n == node@.children.len(),
            i <= n,
            strings_view(elements@) == start + connector_lines(node@, i as int),
        decreases n - i,
    {
        assert(node@.children[i as int] == node.children@[i as int]@);
        let line = connector_text(node, &node.children[i]);
        push_line(elements, line);
        assert(strings_view(elements@) =~= start + connector_lines(node@, i + 1));
        i = i + 1;
    }
    push_line(elements, rect_text(node));
    push_line(elements, label_text(node));
    push_line(elements, sublabel_text(node));
    let ghost mid = strings_view(elements@);
    assert(mid =~= start + connector_lines(node@, n as int) + seq![rect_line(node@), label_line(node@), sublabel_line(node@)]);
    let mut k: usize = 0;
    while k < n
        invariant
            n == node.children@.len(),
            n == node@.children.len(),
            k <= n,
            strings_view(elements@) == mid + children_lines(node@, k as int),
        decreases n - k,
    {
        assert(node@.children[k as int] == node.children@[k as int]@);
        render_node(&node.children[k], elements);
        assert(strings_view(elements@) =~= mid + children_lines(node@, k + 1));
        k = k + 1;
    }
    assert(strings_view(elements@) =~= start + node_lines(node@));
}

/// Elements of the layouts of the first `k` roots of a forest.
pub open spec fn forest_lines(units: Seq<Unit>, k: int) -> Seq<Seq<char>>
    decreases k,
{
    if k <= 0 || k > units.len() {
        Seq::empty()
    } else {
        forest_lines(units, k - 1) + node_lines(root_layout(units, k - 1))
    }
}

/// The title element, centered on a canvas `w` wide.
pub open spec fn title_line(w: int, title: Seq<char>) -> Seq<char> {
    "  <text x=\""@ + num(w / 2)
        + "\" y=\"30\" text-anchor=\"middle\" font-size=\"18\" font-weight=\"bold\" font-family=\"sans-serif\" fill=\"#1a1a2e\">"@
        + xml_escaped(title) + "</text>"@
}

/// The diagram of a library: a minimal canvas saying "no units" when it has
/// none; otherwise a canvas sized to the layout, the title, and the elements
/// of each root's tree.
pub open spec fn svg_text(title: Seq<char>, units: Seq<Unit>) -> Seq<char> {
    if units.len() == 0 {
        "<?xml version=\"1.0\" encoding=\"UTF-8\"?>\n<svg xmlns=\"http://www.w3.org/2000/svg\" width=\"400\" height=\"100\">\n  <text x=\"200\" y=\"50\" text-anchor=\"middle\" font-size=\"16\" font-family=\"sans-serif\">"@
            + xml_escaped(title) + " (no units)</text>\n</svg>"@
    } else {
        let w = canvas_width_of(units);
        "<?xml version=\"1.0\" encoding=\"UTF-8\"?>\n<svg xmlns=\"http://www.w3.org/2000/svg\" width=\""@
            + num(w) + "\" height=\""@ + num(canvas_height_of(units)) + "\">\n"@ + join_lines(
            seq![title_line(w, title)] + forest_lines(units, units.len() as int),
        ) + "\n</svg>"@
    }
}

/// Lines joined with a newline between each two.
pub fn join_strings(v: &Vec<String>) -> (r: String)
    ensures
        r@ == join_lines(strings_view(v@)),
{
    let mut r = String::new();
    let mut i: usize = 0;
    while i < v.len()
        invariant
            i <= v@.len(),
            r@ == join_lines(strings_view(v@).subrange(0, i as int)),
        decreases v@.len() - i,
    {
        if i > 0 {
            push_char(&mut r, '\n');
        }
        r.append(v[i].as_str());
        let ghost s = strings_view(v@).subrange(0, i + 1);
        assert(s.drop_last() =~= strings_view(v@).subrange(0, i as int));
        assert(r@ =~= join_lines(s));
        i = i + 1;
    }
    assert(strings_view(v@).subrange(0, v@.len() as int) =~= strings_view(v@));
    r
}

/// Width of a forest's canvas.
fn canvas_width(units: &Vec<Unit>) -> (w: u64)
    requires
        forest_fits(units@),
    ensures
        w == canvas_width_of(units@),
{
    let n = units.len();
    let mut left: u64 = PADDING;
    let mut i: usize = 0;
    proof {
        lemma_forest_bounds(units@, n as int);
    }
    while i < n
        invariant
            n == units@.len(),
            i <= n,
            left == root_left(units@, i as int),
            forest_fits(units@),
            forall|j: int| 0 <= j <= n ==> #[trigger] root_left(units@, j) <= root_left(units@, n as int),
        decreases n - i,
    {
        proof {
            lemma_width_bounds(units@[i as int]);
            assert(root_left(units@, i + 1) <= root_left(units@, n as int));
        }
        let w = subtree_width(&units[i]);
        left = left + w + 2 * H_SPACING;
        i = i + 1;
    }
    left + PADDING
}

/// The diagram of a library as SVG text.
pub fn svg_document(library: &Library) -> (r: String)
    requires
        forest_fits(library.units@),
    ensures
        r@ == svg_text(library.name@, library.units@),
{
    let units = &library.units;
    let title = xml_escape(library.name.as_str());
    if units.len() == 0 {
        let mut r = String::from_str(
            "<?xml version=\"1.0\" encoding=\"UTF-8\"?>\n<svg xmlns=\"http://www.w3.org/2000/svg\" width=\"400\" height=\"100\">\n  <text x=\"200\" y=\"50\" text-anchor=\"middle\" font-size=\"16\" font-family=\"sans-serif\">",
        );
        r.append(title.as_str());
        r.append(" (no units)</text>\n</svg>");
        return r;
    }
    let layouts = layout_units(units);
    let width = canvas_width(units);
    let n = layouts.len();
    let mut depth: usize = 0;
    let mut i: usize = 0;
    proof {
        lemma_forest_bounds(units@, n as int);
    }
    while i < n
        invariant
            n == layouts@.len(),
            n == units@.len(),
            i <= n,
            is_forest_layout(units@, layouts@),
            forest_fits(units@),
            depth == forest_depth(units@, i as int),
            forest_depth(units@, n as int) >= 0,
            forall|j: int| 0 <= j < n ==> unit_depth(#[trigger] units@[j]) <= forest_depth(units@, n as int),
            forest_depth(units@, n as int) * (BOX_HEIGHT + V_SPACING) <= COORD_LIMIT,
        decreases n - i,
    {
        proof {
            lemma_layout_depth(
                units@[i as int],
                root_left(units@, i as int),
                top_row(),
                subtree_width_of(units@[i as int]),
            );
            assert(layouts@[i as int]@ == root_layout(units@, i as int));
            assert(unit_depth(units@[i as int]) <= forest_depth(units@, n as int));
            assert(forest_depth(units@, n as int) <= u32::MAX) by (nonlinear_arith)
                requires
                    forest_depth(units@, n as int) * (BOX_HEIGHT + V_SPACING) <= COORD_LIMIT,
                    forest_depth(units@, n as int) >= 0,
            ;
        }
        let d = max_depth(&layouts[i]);
        if d > depth {
            depth = d;
        }
        i = i + 1;
    }
    proof {
        assert(depth * (BOX_HEIGHT + V_SPACING) <= COORD_LIMIT);
    }
    let height: u64 = 2 * PADDING + (depth as u64) * (BOX_HEIGHT + V_SPACING);
    let mut elements: Vec<String> = Vec::new();
    let mut t = String::from_str("  <text x=\"");
    write_decimal(&mut t, (width / 2) as u128);
    t.append(
        "\" y=\"30\" text-anchor=\"middle\" font-size=\"18\" font-weight=\"bold\" font-family=\"sans-serif\" fill=\"#1a1a2e\">",
    );
    t.append(title.as_str());
    t.append("</text>");
    let ghost tl = t@;
    push_line(&mut elements, t);
    let ghost head = strings_view(elements@);
    assert(head =~= seq![title_line(width as int, library.name@)]);
    let mut k: usize = 0;
    while k < n
        invariant
            n == layouts@.len(),
            n == units@.len(),
            k <= n,
            is_forest_layout(units@, layouts@),
            strings_view(elements@) == head + forest_lines(units@, k as int),
        decreases n - k,
    {
        assert(layouts@[k as int]@ == root_layout(units@, k as int));
        render_node(&layouts[k], &mut elements);
        assert(strings_view(elements@) =~= head + forest_lines(units@, k + 1));
        k = k + 1;
    }
    let body = join_strings(&elements);
    let mut r = String::from_str(
        "<?xml version=\"1.0\" encoding=\"UTF-8\"?>\n<svg xmlns=\"http://www.w3.org/2000/svg\" width=\"",
    );
    write_decimal(&mut r, width as u128);
    r.append("\" height=\"");
    write_decimal(&mut r, height as u128);
    r.append("\">\n");
    r.append(body.as_str());
    r.append("\n</svg>");
    assert(height == canvas_height_of(units@));
    assert(body@ == join_lines(seq![title_line(width as int, library.name@)] + forest_lines(units@, n as int)));
    r
}

} // verus!
