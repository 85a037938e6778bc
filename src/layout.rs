//! Deterministic two-dimensional layout of a forest of units for diagrams.
//!
//! Every coordinate is a whole number: box widths and gaps are even, so each
//! halving in the centering rules is exact.

use vstd::prelude::*;
use vstd::string::*;
use crate::models::library::{Equipment, Unit};
use crate::text::{decimal, write_decimal};

verus! {

/// Width of a unit's box.
pub const BOX_WIDTH: u64 = 160;

/// Height of a unit's box.
pub const BOX_HEIGHT: u64 = 50;

/// Horizontal gap between sibling subtrees.
pub const H_SPACING: u64 = 30;

/// Vertical gap between two levels of the tree.
pub const V_SPACING: u64 = 60;

/// Margin around the whole diagram.
pub const PADDING: u64 = 40;

/// Height of the title band above the first row of boxes.
pub const TITLE_HEIGHT: u64 = 30;

/// Bound on the coordinates that a layout may reach.
pub const COORD_LIMIT: u64 = 0x40_0000_0000;

/// A laid-out unit: the top-left corner of its box, its two text lines, and
/// its laid-out children.
pub struct LayoutNode {
    pub x: u64,
    pub y: u64,
    pub label: String,
    pub sublabel: String,
    pub children: Vec<LayoutNode>,
}

/// Mathematical view of a laid-out unit.
pub struct LayoutBox {
    pub x: int,
    pub y: int,
    pub label: Seq<char>,
    pub sublabel: Seq<char>,
    pub children: Seq<LayoutBox>,
}

pub open spec fn empty_box() -> LayoutBox {
    LayoutBox { x: 0, y: 0, label: Seq::empty(), sublabel: Seq::empty(), children: Seq::empty() }
}

pub open spec fn box_of(n: LayoutNode) -> LayoutBox
    decreases n,
{
    LayoutBox {
        x: n.x as int,
        y: n.y as int,
        label: n.label@,
        sublabel: n.sublabel@,
        children: Seq::new(
            n.children.len() as nat,
            |i: int|
                if 0 <= i < n.children.len() {
                    box_of(n.children@[i])
                } else {
                    empty_box()
                },
        ),
    }
}

impl View for LayoutNode {
    type V = LayoutBox;

    open spec fn view(&self) -> LayoutBox {
        box_of(*self)
    }
}

/// Width that a unit's subtree occupies: a leaf takes one box; an inner unit
/// takes its children's span, and never less than one box.
pub open spec fn subtree_width_of(u: Unit) -> int
    decreases u, 1int, 0int,
{
    if u.children.len() == 0 {
        BOX_WIDTH as int
    } else {
        let s = children_widths(u, u.children.len() as int) + H_SPACING * (u.children.len() - 1);
        if s < BOX_WIDTH {
            BOX_WIDTH as int
        } else {
            s
        }
    }
}

/// Sum of the subtree widths of the first `k` children of `u`.
pub open spec fn children_widths(u: Unit, k: int) -> int
    decreases u, 0int, k,
{
    if k <= 0 || k > u.children.len() {
        0
    } else {
        children_widths(u, k - 1) + subtree_width_of(u.children@[k - 1])
    }
}

/// Width of the row of a unit's children: their widths and the gaps between.
pub open spec fn children_span(u: Unit) -> int {
    if u.children.len() == 0 {
        0
    } else {
        children_widths(u, u.children.len() as int) + H_SPACING * (u.children.len() - 1)
    }
}

/// Left edge of the width allocated to child `i` of `u` when `u` is centered on `cx`.
pub open spec fn child_left(u: Unit, cx: int, i: int) -> int {
    cx - children_span(u) / 2 + children_widths(u, i) + H_SPACING * i
}

/// Levels in a unit's subtree, the unit's own included.
pub open spec fn unit_depth(u: Unit) -> int
    decreases u, 1int, 0int,
{
    1 + children_depth(u, u.children.len() as int)
}

/// Greatest depth among the first `k` children of `u` (0 for none).
pub open spec fn children_depth(u: Unit, k: int) -> int
    decreases u, 0int, k,
{
    if k <= 0 || k > u.children.len() {
        0
    } else {
        let d = unit_depth(u.children@[k - 1]);
        let m = children_depth(u, k - 1);
        if d > m {
            d
        } else {
            m
        }
    }
}

/// Sum of the quantities of a list of equipment lines.
pub open spec fn quantity_sum(s: Seq<Equipment>) -> int
    decreases s.len(),
{
    if s.len() == 0 {
        0
    } else {
        quantity_sum(s.drop_last()) + s.last().quantity
    }
}

/// Second text line of a unit's box: its own personnel count and summed
/// equipment quantity, descendants not included.
pub open spec fn sublabel_of(u: Unit) -> Seq<char> {
    "P:"@ + decimal(u.personnel.len() as nat) + " E:"@ + decimal(quantity_sum(u.equipment@) as nat)
}

/// Layout of a unit whose allocated interval starts at `x` and is `aw` wide,
/// with its box's top at `y`.
pub open spec fn unit_layout(u: Unit, x: int, y: int, aw: int) -> LayoutBox
    decreases u,
{
    let cx = x + aw / 2;
    LayoutBox {
        x: cx - BOX_WIDTH / 2,
        y: y,
        label: u.name@,
        sublabel: sublabel_of(u),
        children: Seq::new(
            u.children.len() as nat,
            |i: int|
                if 0 <= i < u.children.len() {
                    unit_layout(
                        u.children@[i],
                        child_left(u, cx, i),
                        y + BOX_HEIGHT + V_SPACING,
                        subtree_width_of(u.children@[i]),
                    )
                } else {
                    empty_box()
                },
        ),
    }
}

pub proof fn lemma_width_facts(u: Unit)
    ensures
        subtree_width_of(u) >= BOX_WIDTH,
        subtree_width_of(u) % 2 == 0,
        subtree_width_of(u) >= children_span(u),
        children_span(u) % 2 == 0,
        unit_depth(u) >= 1,
    decreases u, 1int,
{
    lemma_children_facts(u, u.children.len() as int);
}

pub proof fn lemma_children_facts(u: Unit, k: int)
    requires
        0 <= k <= u.children.len(),
    ensures
        children_widths(u, k) >= BOX_WIDTH * k,
        children_widths(u, k) % 2 == 0,
        children_depth(u, k) >= 0,
        forall|j: int| 0 <= j < k ==> unit_depth(#[trigger] u.children@[j]) <= children_depth(u, k),
        forall|j: int| 0 <= j <= k ==> #[trigger] children_widths(u, j) <= children_widths(u, k),
    decreases u, 0int, k,
{
    if k > 0 {
        lemma_children_facts(u, k - 1);
        lemma_width_facts(u.children@[k - 1]);
    }
}

/// The subtree width of a unit, as `subtree_width_of` states it.
pub fn subtree_width(unit: &Unit) -> (w: u64)
    requires
        subtree_width_of(*unit) <= COORD_LIMIT,
    ensures
        w == subtree_width_of(*unit),
    decreases *unit,
{
    proof {
        lemma_width_facts(*unit);
        lemma_children_facts(*unit, unit.children.len() as int);
    }
    if unit.children.len() == 0 {
        return BOX_WIDTH;
    }
    let total = children_total_width(unit);
    if total < BOX_WIDTH {
        BOX_WIDTH
    } else {
        total
    }
}

/// Width of the row of a unit's children, gaps included.
fn children_total_width(unit: &Unit) -> (t: u64)
    requires
        subtree_width_of(*unit) <= COORD_LIMIT,
    ensures
        t == children_span(*unit),
    decreases *unit, 0int,
{
    proof {
        lemma_width_facts(*unit);
        lemma_children_facts(*unit, unit.children.len() as int);
    }
    let n = unit.children.len();
    let mut sum: u64 = 0;
    let mut i: usize = 0;
    while i < n
        invariant
            n == unit.children@.len(),
            i <= n,
            sum == children_widths(*unit, i as int),
            subtree_width_of(*unit) <= COORD_LIMIT,
            subtree_width_of(*unit) >= children_span(*unit),
            forall|j: int| 0 <= j <= n ==> #[trigger] children_widths(*unit, j) <= children_widths(*unit, n as int),
        decreases n - i,
    {
        proof {
            lemma_width_facts(unit.children@[i as int]);
            assert(children_widths(*unit, i + 1) <= children_widths(*unit, n as int));
        }
        let w = subtree_width(&unit.children[i]);
        sum = sum + w;
        i = i + 1;
    }
    if n == 0 {
        0
    } else {
        sum + H_SPACING * ((n - 1) as u64)
    }
}

/// The sum of the quantities of a unit's own equipment lines.
fn equipment_quantity(equipment: &Vec<Equipment>) -> (q: u128)
    ensures
        q == quantity_sum(equipment@),
{
    let mut q: u128 = 0;
    let mut i: usize = 0;
    while i < equipment.len()
        invariant
            i <= equipment@.len(),
            q == quantity_sum(equipment@.subrange(0, i as int)),
            q <= i * (usize::MAX as int),
        decreases equipment@.len() - i,
    {
        assert(equipment@.subrange(0, i + 1).drop_last() =~= equipment@.subrange(0, i as int));
        proof {
            assert((i + 1) * (usize::MAX as int) == i * (usize::MAX as int) + usize::MAX)
                by (nonlinear_arith);
            assert(i * (usize::MAX as int) + usize::MAX <= usize::MAX * (usize::MAX as int))
                by (nonlinear_arith) requires i < usize::MAX;
            assert(usize::MAX * (usize::MAX as int) <= u64::MAX * (u64::MAX as int))
                by (nonlinear_arith) requires usize::MAX <= u64::MAX;
            assert(u64::MAX * (u64::MAX as int) < u128::MAX) by (nonlinear_arith);
        }
        q = q + equipment[i].quantity as u128;
        i = i + 1;
    }
    assert(equipment@.subrange(0, i as int) =~= equipment@);
    q
}

/// The second text line of a unit's box.
pub fn sublabel(unit: &Unit) -> (s: String)
    ensures
        s@ == sublabel_of(*unit),
{
    let mut s = String::from_str("P:");
    write_decimal(&mut s, unit.personnel.len() as u128);
    s.append(" E:");
    let q = equipment_quantity(&unit.equipment);
    write_decimal(&mut s, q);
    s
}

/// Lays out `unit` centered in the interval `[x, x + available_width]`, its
/// box's top at `y`, its children one row below, recursively.
pub fn layout_unit(unit: &Unit, x: u64, y: u64, available_width: u64) -> (r: LayoutNode)
    requires
        subtree_width_of(*unit) <= available_width,
        x + available_width <= COORD_LIMIT,
        y + unit_depth(*unit) * (BOX_HEIGHT + V_SPACING) <= COORD_LIMIT,
    ensures
        r@ == unit_layout(*unit, x as int, y as int, available_width as int),
    decreases *unit,
{
    proof {
        lemma_width_facts(*unit);
        lemma_children_facts(*unit, unit.children.len() as int);
    }
    let cx = x + available_width / 2;
    let label = unit.name.clone();
    let sub = sublabel(unit);
    let mut children: Vec<LayoutNode> = Vec::new();
    let n = unit.children.len();
    if n > 0 {
        let total = children_total_width(unit);
        let start_x = cx - total / 2;
        let child_y = y + BOX_HEIGHT + V_SPACING;
        let mut cur_x = start_x;
        let mut i: usize = 0;
        while i < n
            invariant
                n == unit.children@.len(),
                i <= n,
                total == children_span(*unit),
                start_x == cx - total / 2,
                cx == x + available_width / 2,
                child_y == y + BOX_HEIGHT + V_SPACING,
                cur_x == child_left(*unit, cx as int, i as int),
                children@.len() == i,
                forall|j: int|
                    0 <= j < i ==> (#[trigger] children@[j])@ == unit_layout(
                        unit.children@[j],
                        child_left(*unit, cx as int, j),
                        child_y as int,
                        subtree_width_of(unit.children@[j]),
                    ),
                subtree_width_of(*unit) <= available_width,
                subtree_width_of(*unit) >= children_span(*unit),
                children_span(*unit) % 2 == 0,
                x + available_width <= COORD_LIMIT,
                y + unit_depth(*unit) * (BOX_HEIGHT + V_SPACING) <= COORD_LIMIT,
                unit_depth(*unit) == 1 + children_depth(*unit, n as int),
                forall|j: int| 0 <= j < n ==> unit_depth(#[trigger] unit.children@[j]) <= children_depth(*unit, n as int),
                forall|j: int| 0 <= j <= n ==> #[trigger] children_widths(*unit, j) <= children_widths(*unit, n as int),
            decreases n - i,
        {
            let child = &unit.children[i];
            proof {
                lemma_width_facts(*child);
                assert(children_widths(*unit, i + 1) == children_widths(*unit, i as int) + subtree_width_of(*child));
                assert(children_widths(*unit, i + 1) <= children_widths(*unit, n as int));
                assert(unit_depth(*child) <= children_depth(*unit, n as int));
                assert(child_y + unit_depth(*child) * (BOX_HEIGHT + V_SPACING) <= y + unit_depth(*unit) * (BOX_HEIGHT + V_SPACING)) by (nonlinear_arith)
                    requires
                        child_y == y + BOX_HEIGHT + V_SPACING,
                        unit_depth(*child) + 1 <= unit_depth(*unit),
                ;
            }
            let cw = subtree_width(child);
            let node = layout_unit(child, cur_x, child_y, cw);
            children.push(node);
            cur_x = cur_x + cw + H_SPACING;
            i = i + 1;
        }
    }
    let r = LayoutNode { x: cx - BOX_WIDTH / 2, y, label, sublabel: sub, children };
    assert(r@.children =~= unit_layout(*unit, x as int, y as int, available_width as int).children);
    r
}

/// Levels in a laid-out tree, its root included.
pub open spec fn box_depth(b: LayoutBox) -> int
    decreases b, 1int, 0int,
{
    1 + boxes_depth(b, b.children.len() as int)
}

/// Greatest depth among the first `k` children of a laid-out node (0 for none).
pub open spec fn boxes_depth(b: LayoutBox, k: int) -> int
    decreases b, 0int, k,
{
    if k <= 0 || k > b.children.len() {
        0
    } else {
        let d = box_depth(b.children[k - 1]);
        let m = boxes_depth(b, k - 1);
        if d > m {
            d
        } else {
            m
        }
    }
}

/// A layout has as many levels as the unit it was made from.
pub proof fn lemma_layout_depth(u: Unit, x: int, y: int, aw: int)
    ensures
        box_depth(unit_layout(u, x, y, aw)) == unit_depth(u),
    decreases u, 1int, 0int,
{
    lemma_layout_children_depth(u, x, y, aw, u.children.len() as int);
}

proof fn lemma_layout_children_depth(u: Unit, x: int, y: int, aw: int, k: int)
    requires
        0 <= k <= u.children.len(),
    ensures
        boxes_depth(unit_layout(u, x, y, aw), k) == children_depth(u, k),
    decreases u, 0int, k,
{
    if k > 0 {
        let cx = x + aw / 2;
        let c = u.children@[k - 1];
        lemma_layout_children_depth(u, x, y, aw, k - 1);
        lemma_layout_depth(c, child_left(u, cx, k - 1), y + BOX_HEIGHT + V_SPACING, subtree_width_of(c));
    }
}

/// Levels in a laid-out tree.
pub fn max_depth(node: &LayoutNode) -> (d: usize)
    requires
        box_depth(node@) <= usize::MAX,
    ensures
        d == box_depth(node@),
    decreases *node,
{
    let n = node.children.len();
    let mut m: usize = 0;
    let mut i: usize = 0;
    proof {
        lemma_boxes_depth_bounded(node@, n as int);
    }
    while i < n
        invariant
            n == node.children@.len(),
            n == node@.children.len(),
            i <= n,
            m == boxes_depth(node@, i as int),
            box_depth(node@) <= usize::MAX,
            forall|j: int| 0 <= j <= n ==> 0 <= #[trigger] boxes_depth(node@, j) <= boxes_depth(node@, n as int),
        decreases n - i,
    {
        assert(node@.children[i as int] == node.children@[i as int]@);
        assert(boxes_depth(node@, i + 1) <= boxes_depth(node@, n as int));
        let d = max_depth(&node.children[i]);
        if d > m {
            m = d;
        }
        i = i + 1;
    }
    m + 1
}

proof fn lemma_boxes_depth_bounded(b: LayoutBox, k: int)
    requires
        0 <= k <= b.children.len(),
    ensures
        forall|j: int| 0 <= j <= k ==> 0 <= #[trigger] boxes_depth(b, j) <= boxes_depth(b, k),
    decreases k,
{
    if k > 0 {
        lemma_boxes_depth_bounded(b, k - 1);
        lemma_box_depth_pos(b.children[k - 1]);
    }
}

proof fn lemma_box_depth_pos(b: LayoutBox)
    ensures
        box_depth(b) >= 1,
    decreases b, 1int,
{
    lemma_boxes_depth_nonneg(b, b.children.len() as int);
}

proof fn lemma_boxes_depth_nonneg(b: LayoutBox, k: int)
    requires
        0 <= k <= b.children.len(),
    ensures
        boxes_depth(b, k) >= 0,
    decreases b, 0int, k,
{
    if k > 0 {
        lemma_boxes_depth_nonneg(b, k - 1);
        lemma_box_depth_pos(b.children[k - 1]);
    }
}

/// Top of the first row of boxes: below the margin and the title band.
pub open spec fn top_row() -> int {
    PADDING + TITLE_HEIGHT
}

/// Left edge of the interval allocated to root `i` of a forest: each root
/// takes its subtree width plus two gaps before the next one.
pub open spec fn root_left(units: Seq<Unit>, i: int) -> int
    decreases i,
{
    if i <= 0 || i > units.len() {
        PADDING as int
    } else {
        root_left(units, i - 1) + subtree_width_of(units[i - 1]) + 2 * H_SPACING
    }
}

/// Greatest depth among the first `k` roots of a forest (0 for none).
pub open spec fn forest_depth(units: Seq<Unit>, k: int) -> int
    decreases k,
{
    if k <= 0 || k > units.len() {
        0
    } else {
        let d = unit_depth(units[k - 1]);
        let m = forest_depth(units, k - 1);
        if d > m {
            d
        } else {
            m
        }
    }
}

/// Layout of root `i` of a forest.
pub open spec fn root_layout(units: Seq<Unit>, i: int) -> LayoutBox {
    unit_layout(units[i], root_left(units, i), top_row(), subtree_width_of(units[i]))
}

/// Width of a forest's canvas: the running total of the roots' intervals, and
/// a margin on each side.
pub open spec fn canvas_width_of(units: Seq<Unit>) -> int {
    root_left(units, units.len() as int) + PADDING
}

/// Height of a forest's canvas: a margin on each side, and one box and one
/// gap for each level.
pub open spec fn canvas_height_of(units: Seq<Unit>) -> int {
    2 * PADDING + forest_depth(units, units.len() as int) * (BOX_HEIGHT + V_SPACING)
}

/// A forest whose layout stays within the coordinate bound.
pub open spec fn forest_fits(units: Seq<Unit>) -> bool {
    &&& canvas_width_of(units) <= COORD_LIMIT
    &&& top_row() + forest_depth(units, units.len() as int) * (BOX_HEIGHT + V_SPACING) <= COORD_LIMIT
}

/// `r` is the layout of the forest `units`, one tree per root, in order.
pub open spec fn is_forest_layout(units: Seq<Unit>, r: Seq<LayoutNode>) -> bool {
    &&& r.len() == units.len()
    &&& forall|i: int| 0 <= i < units.len() ==> (#[trigger] r[i])@ == root_layout(units, i)
}

pub proof fn lemma_forest_bounds(units: Seq<Unit>, k: int)
    requires
        0 <= k <= units.len(),
    ensures
        forall|j: int| 0 <= j <= k ==> #[trigger] root_left(units, j) <= root_left(units, k),
        forall|j: int| 0 <= j < k ==> unit_depth(#[trigger] units[j]) <= forest_depth(units, k),
        forest_depth(units, k) >= 0,
        root_left(units, k) >= PADDING,
    decreases k,
{
    if k > 0 {
        lemma_forest_bounds(units, k - 1);
        lemma_width_facts(units[k - 1]);
    }
}

/// Lays out a forest: the roots side by side from the left margin, all on the
/// first row below the title band.
pub fn layout_units(units: &Vec<Unit>) -> (r: Vec<LayoutNode>)
    requires
        forest_fits(units@),
    ensures
        is_forest_layout(units@, r@),
{
    let n = units.len();
    let mut r: Vec<LayoutNode> = Vec::new();
    let mut left: u64 = PADDING;
    let mut i: usize = 0;
    proof {
        lemma_forest_bounds(units@, n as int);
    }
    while i < n
        invariant
            n == units@.len(),
            i <= n,
            left == root_left(units@, i as int),
            r@.len() == i,
            forall|j: int| 0 <= j < i ==> (#[trigger] r@[j])@ == root_layout(units@, j),
            forest_fits(units@),
            forall|j: int| 0 <= j <= n ==> #[trigger] root_left(units@, j) <= root_left(units@, n as int),
            forall|j: int| 0 <= j < n ==> unit_depth(#[trigger] units@[j]) <= forest_depth(units@, n as int),
        decreases n - i,
    {
        let unit = &units[i];
        proof {
            lemma_width_facts(*unit);
            assert(root_left(units@, i + 1) <= root_left(units@, n as int));
            assert(unit_depth(*unit) <= forest_depth(units@, n as int));
            assert(top_row() + unit_depth(*unit) * (BOX_HEIGHT + V_SPACING) <= top_row() + forest_depth(units@, n as int) * (BOX_HEIGHT + V_SPACING)) by (nonlinear_arith)
                requires
                    unit_depth(*unit) <= forest_depth(units@, n as int),
            ;
        }
        let w = subtree_width(unit);
        let node = layout_unit(unit, left, PADDING + TITLE_HEIGHT, w);
        r.push(node);
        left = left + w + 2 * H_SPACING;
        i = i + 1;
    }
    r
}

/// Two layouts of the same forest are the same: layout holds no hidden state.
pub proof fn lemma_layout_deterministic(units: Seq<Unit>, a: Seq<LayoutNode>, b: Seq<LayoutNode>)
    requires
        is_forest_layout(units, a),
        is_forest_layout(units, b),
    ensures
        a.len() == b.len(),
        forall|i: int| 0 <= i < a.len() ==> (#[trigger] a[i])@ == b[i]@,
{
    assert forall|i: int| 0 <= i < a.len() implies (#[trigger] a[i])@ == b[i]@ by {
        assert(a[i]@ == root_layout(units, i));
        assert(b[i]@ == root_layout(units, i));
    }
}

/// A subtree is never narrower than one box, and a unit with children is at
/// least as wide as its children's widths and the gaps between them.
pub proof fn lemma_width_bounds(u: Unit)
    ensures
        subtree_width_of(u) >= BOX_WIDTH,
        u.children.len() > 0 ==> subtree_width_of(u) >= children_widths(u, u.children.len() as int)
            + H_SPACING * (u.children.len() - 1),
{
    lemma_width_facts(u);
}

/// Every box of a layout is centered on the interval allocated to it: the
/// root on `[x, x + aw]`, each child on its own subtree width.
pub open spec fn centered(b: LayoutBox, u: Unit, x: int, aw: int) -> bool
    decreases u,
{
    &&& 2 * (b.x + BOX_WIDTH / 2) == 2 * x + aw
    &&& b.children.len() == u.children.len()
    &&& forall|i: int|
        0 <= i < u.children.len() ==> centered(
            #[trigger] b.children[i],
            u.children@[i],
            child_left(u, x + aw / 2, i),
            subtree_width_of(u.children@[i]),
        )
}

/// Each box of a layout sits at the exact midpoint of its allocated interval,
/// whenever the root's interval has an even width (subtree widths always do).
pub proof fn lemma_layout_centered(u: Unit, x: int, y: int, aw: int)
    requires
        aw % 2 == 0,
    ensures
        centered(unit_layout(u, x, y, aw), u, x, aw),
    decreases u,
{
    let b = unit_layout(u, x, y, aw);
    let cx = x + aw / 2;
    assert forall|i: int|
        0 <= i < u.children.len() implies centered(
            #[trigger] b.children[i],
            u.children@[i],
            child_left(u, cx, i),
            subtree_width_of(u.children@[i]),
        ) by {
        lemma_width_facts(u.children@[i]);
        lemma_layout_centered(
            u.children@[i],
            child_left(u, cx, i),
            y + BOX_HEIGHT + V_SPACING,
            subtree_width_of(u.children@[i]),
        );
    }
}

/// Every box of a forest's layout sits at the midpoint of its allocated
/// interval, each root on its own subtree width.
pub proof fn lemma_forest_centered(units: Seq<Unit>, i: int)
    requires
        0 <= i < units.len(),
    ensures
        centered(root_layout(units, i), units[i], root_left(units, i), subtree_width_of(units[i])),
{
    lemma_width_facts(units[i]);
    lemma_layout_centered(units[i], root_left(units, i), top_row(), subtree_width_of(units[i]));
}

/// A unit's children fill a row centered under the unit: the first starts
/// half a row left of the unit's center and the last ends half a row right.
pub proof fn lemma_children_row_centered(u: Unit, cx: int)
    requires
        u.children.len() > 0,
    ensures
        child_left(u, cx, 0) == cx - children_span(u) / 2,
        child_left(u, cx, u.children.len() - 1) + subtree_width_of(u.children@[u.children.len() - 1])
            == cx + children_span(u) / 2,
{
    lemma_width_facts(u);
    let n = u.children.len() as int;
    assert(children_widths(u, n) == children_widths(u, n - 1) + subtree_width_of(u.children@[n - 1]));
}

/// The subtree width of a unit, or `None` when it exceeds the coordinate bound.
pub fn checked_subtree_width(unit: &Unit) -> (r: Option<u64>)
    ensures
        r == (if subtree_width_of(*unit) <= COORD_LIMIT {
            Some(subtree_width_of(*unit) as u64)
        } else {
            None
        }),
    decreases *unit,
{
    let n = unit.children.len();
    proof {
        lemma_width_facts(*unit);
        lemma_children_facts(*unit, n as int);
    }
    if n == 0 {
        return Some(BOX_WIDTH);
    }
    let mut sum: u64 = 0;
    let mut i: usize = 0;
    while i < n
        invariant
            n == unit.children@.len(),
            i <= n,
            sum == children_widths(*unit, i as int),
            sum <= COORD_LIMIT,
            subtree_width_of(*unit) >= children_span(*unit),
            children_span(*unit) == children_widths(*unit, n as int) + H_SPACING * (n - 1),
            forall|j: int| 0 <= j <= n ==> #[trigger] children_widths(*unit, j) <= children_widths(*unit, n as int),
        decreases n - i,
    {
        let child = &unit.children[i];
        proof {
            lemma_width_facts(*child);
            assert(children_widths(*unit, i + 1) == children_widths(*unit, i as int) + subtree_width_of(*child));
            assert(children_widths(*unit, i + 1) <= children_widths(*unit, n as int));
        }
        match checked_subtree_width(child) {
            None => {
                return None;
            },
            Some(w) => {
                if w > COORD_LIMIT - sum {
                    return None;
                }
                sum = sum + w;
            },
        }
        i = i + 1;
    }
    let gaps = (n - 1) as u64;
    if gaps > (COORD_LIMIT - sum) / H_SPACING {
        assert(H_SPACING * gaps > COORD_LIMIT - sum) by (nonlinear_arith)
            requires
                gaps > (COORD_LIMIT - sum) / (H_SPACING as int),
                COORD_LIMIT >= sum,
        ;
        return None;
    }
    assert(H_SPACING * gaps <= COORD_LIMIT - sum) by (nonlinear_arith)
        requires
            gaps <= (COORD_LIMIT - sum) / (H_SPACING as int),
            COORD_LIMIT >= sum,
    ;
    let total = sum + H_SPACING * gaps;
    if total < BOX_WIDTH {
        Some(BOX_WIDTH)
    } else {
        Some(total)
    }
}

proof fn lemma_children_depth_attained(u: Unit, k: int, c: int)
    requires
        0 <= k <= u.children.len(),
        c >= 0,
    ensures
        children_depth(u, k) <= c <==> forall|j: int| 0 <= j < k ==> unit_depth(#[trigger] u.children@[j]) <= c,
    decreases k,
{
    lemma_children_facts(u, k);
    if k > 0 {
        lemma_children_depth_attained(u, k - 1, c);
    }
}

/// Whether a unit's subtree has at most `cap` levels.
pub fn depth_within(unit: &Unit, cap: u64) -> (r: bool)
    ensures
        r == (unit_depth(*unit) <= cap),
    decreases *unit,
{
    proof {
        lemma_width_facts(*unit);
    }
    if cap == 0 {
        return false;
    }
    let n = unit.children.len();
    proof {
        lemma_children_depth_attained(*unit, n as int, cap - 1);
    }
    let mut i: usize = 0;
    while i < n
        invariant
            n == unit.children@.len(),
            i <= n,
            cap >= 1,
            forall|j: int| 0 <= j < i ==> unit_depth(#[trigger] unit.children@[j]) <= cap - 1,
            unit_depth(*unit) == 1 + children_depth(*unit, n as int),
            children_depth(*unit, n as int) <= cap - 1 <==> forall|j: int|
                0 <= j < n ==> unit_depth(#[trigger] unit.children@[j]) <= cap - 1,
        decreases n - i,
    {
        if !depth_within(&unit.children[i], cap - 1) {
            return false;
        }
        i = i + 1;
    }
    true
}

proof fn lemma_forest_depth_attained(units: Seq<Unit>, k: int, c: int)
    requires
        0 <= k <= units.len(),
        c >= 0,
    ensures
        forest_depth(units, k) <= c <==> forall|j: int| 0 <= j < k ==> unit_depth(#[trigger] units[j]) <= c,
    decreases k,
{
    lemma_forest_bounds(units, k);
    if k > 0 {
        lemma_forest_depth_attained(units, k - 1, c);
    }
}

/// Whether the layout of a forest stays within the coordinate bound, so that
/// it can be laid out and drawn.
pub fn layout_fits(units: &Vec<Unit>) -> (r: bool)
    ensures
        r == forest_fits(units@),
{
    let n = units.len();
    proof {
        lemma_forest_bounds(units@, n as int);
    }
    let mut left: u64 = PADDING;
    let mut i: usize = 0;
    while i < n
        invariant
            n == units@.len(),
            i <= n,
            left == root_left(units@, i as int),
            left <= COORD_LIMIT,
            forall|j: int| 0 <= j <= n ==> #[trigger] root_left(units@, j) <= root_left(units@, n as int),
        decreases n - i,
    {
        assert(root_left(units@, i + 1) <= root_left(units@, n as int));
        match checked_subtree_width(&units[i]) {
            None => {
                return false;
            },
            Some(w) => {
                if w > COORD_LIMIT - left || 2 * H_SPACING > COORD_LIMIT - left - w {
                    return false;
                }
                left = left + w + 2 * H_SPACING;
            },
        }
        i = i + 1;
    }
    if left > COORD_LIMIT - PADDING {
        return false;
    }
    let cap: u64 = (COORD_LIMIT - (PADDING + TITLE_HEIGHT)) / (BOX_HEIGHT + V_SPACING);
    proof {
        lemma_forest_depth_attained(units@, n as int, cap as int);
        let d = forest_depth(units@, n as int);
        assert(d <= cap <==> PADDING + TITLE_HEIGHT + d * (BOX_HEIGHT + V_SPACING) <= COORD_LIMIT) by (nonlinear_arith)
            requires
                cap == (COORD_LIMIT - (PADDING + TITLE_HEIGHT)) / ((BOX_HEIGHT + V_SPACING) as int),
                d >= 0,
        ;
    }
    let mut k: usize = 0;
    while k < n
        invariant
            n == units@.len(),
            k <= n,
            forall|j: int| 0 <= j < k ==> unit_depth(#[trigger] units@[j]) <= cap,
            canvas_width_of(units@) <= COORD_LIMIT,
            forest_depth(units@, n as int) <= cap <==> forall|j: int|
                0 <= j < n ==> unit_depth(#[trigger] units@[j]) <= cap,
            forest_depth(units@, n as int) <= cap <==> top_row() + forest_depth(units@, n as int) * (
            BOX_HEIGHT + V_SPACING) <= COORD_LIMIT,
        decreases n - k,
    {
        if !depth_within(&units[k], cap) {
            return false;
        }
        k = k + 1;
    }
    true
}

} // verus!
