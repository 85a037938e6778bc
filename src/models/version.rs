//! Versioned snapshots of a library and the report of what changed between two.

use vstd::prelude::*;
use vstd::string::*;
use crate::diff::{diff_of, diff_trees, Change, ChangeView, changes_view};
use crate::json::{parse_json, parsed_json, JsonValue};
use crate::text::{decimal, push_char, signed_decimal, write_decimal, write_signed};

verus! {

/// An entity with a version number.
pub trait Versioned {
    /// The current version number.
    fn version(&self) -> i64;

    /// Moves to the next version.
    fn increment_version(&mut self);
}

/// An immutable capture of a library's serialized state at one version.
#[derive(Debug, Clone)]
pub struct Snapshot {
    pub id: Option<i64>,
    pub library_id: i64,
    pub version: i64,
    /// Seconds since the Unix epoch when the snapshot was taken.
    pub timestamp: i64,
    /// The serialized library.
    pub data: String,
    pub description: Option<String>,
}

/// Relies on chrono::Utc::now and DateTime::timestamp: the current time in
/// seconds since the Unix epoch.
#[verifier::external_body]
fn now_timestamp() -> i64 {
    chrono::Utc::now().timestamp()
}

impl Snapshot {
    /// A snapshot taken now, without description.
    pub fn new(library_id: i64, version: i64, data: String) -> (r: Snapshot)
        ensures
            r.id is None,
            r.library_id == library_id,
            r.version == version,
            r.data@ == data@,
            r.description is None,
    {
        Snapshot { id: None, library_id, version, timestamp: now_timestamp(), data, description: None }
    }

    /// A snapshot taken now, with a description.
    pub fn with_description(library_id: i64, version: i64, data: String, description: String) -> (r:
        Snapshot)
        ensures
            r.id is None,
            r.library_id == library_id,
            r.version == version,
            r.data@ == data@,
            r.description == Some(description),
    {
        Snapshot {
            id: None,
            library_id,
            version,
            timestamp: now_timestamp(),
            data,
            description: Some(description),
        }
    }
}

/// The text line of one difference.
pub open spec fn change_line(c: ChangeView) -> Seq<char> {
    match c {
        ChangeView::Added(p) => "Added: "@ + p,
        ChangeView::Removed(p) => "Removed: "@ + p,
        ChangeView::Changed(p, o, n) => "Changed: "@ + p + " ("@ + o + " -> "@ + n + ")"@,
        ChangeView::LengthChanged(p, a, b) => "Changed: "@ + p + " (array length "@ + decimal(a)
            + " -> "@ + decimal(b) + ")"@,
    }
}

/// The first line of every report: the version transition.
pub open spec fn version_line(old_version: i64, new_version: i64) -> Seq<char> {
    "Version "@ + signed_decimal(old_version as int) + " -> "@ + signed_decimal(new_version as int)
}

/// The lines of the report on two snapshots, given what parsing their data
/// yielded: "no changes" for identical data; a single line when either fails
/// to parse; otherwise one line per difference.
pub open spec fn report_lines(
    old_version: i64,
    new_version: i64,
    same_data: bool,
    old_tree: Option<JsonValue>,
    new_tree: Option<JsonValue>,
) -> Seq<Seq<char>> {
    let head = seq![version_line(old_version, new_version)];
    if same_data {
        head.push("No data changes."@)
    } else {
        match (old_tree, new_tree) {
            (Some(a), Some(b)) => {
                let cs = diff_of(Seq::empty(), a, b);
                if cs.len() == 0 {
                    head.push("Data changed but no structural differences detected."@)
                } else {
                    head + cs.map_values(|c: ChangeView| change_line(c))
                }
            },
            _ => head.push("Data format changed (could not parse as JSON)."@),
        }
    }
}

/// Lines joined with a newline between each two.
pub open spec fn join_lines(lines: Seq<Seq<char>>) -> Seq<char>
    decreases lines.len(),
{
    if lines.len() == 0 {
        Seq::empty()
    } else if lines.len() == 1 {
        lines[0]
    } else {
        join_lines(lines.drop_last()) + seq!['\n'] + lines.last()
    }
}

/// The text of the report on two snapshots.
pub open spec fn diff_report(
    old_version: i64,
    new_version: i64,
    same_data: bool,
    old_tree: Option<JsonValue>,
    new_tree: Option<JsonValue>,
) -> Seq<char> {
    join_lines(report_lines(old_version, new_version, same_data, old_tree, new_tree))
}

fn change_text(c: &Change) -> (r: String)
    ensures
        r@ == change_line(c@),
{
    match c {
        Change::Added { path } => {
            let r = String::from_str("Added: ").concat(path.as_str());
            r
        },
        Change::Removed { path } => {
            let r = String::from_str("Removed: ").concat(path.as_str());
            r
        },
        Change::Changed { path, old_value, new_value } => {
            let mut r = String::from_str("Changed: ");
            r.append(path.as_str());
            r.append(" (");
            r.append(old_value.as_str());
            r.append(" -> ");
            r.append(new_value.as_str());
            r.append(")");
            r
        },
        Change::LengthChanged { path, old_len, new_len } => {
            let mut r = String::from_str("Changed: ");
            r.append(path.as_str());
            r.append(" (array length ");
            write_decimal(&mut r, *old_len as u128);
            r.append(" -> ");
            write_decimal(&mut r, *new_len as u128);
            r.append(")");
            r
        },
    }
}

/// Appends a line to a text of lines, with a newline before it unless the
/// text holds no line yet.
fn add_line(out: &mut String, lines: Ghost<Seq<Seq<char>>>, first: bool, line: &str)
    requires
        old(out)@ == join_lines(lines@),
        first == (lines@.len() == 0),
    ensures
        final(out)@ == join_lines(lines@.push(line@)),
{
    if !first {
        push_char(out, '\n');
    }
    out.append(line);
    assert(lines@.push(line@).drop_last() =~= lines@);
}

/// The report on two snapshots, given what parsing their data yielded.
pub fn report_from_trees(
    old: &Snapshot,
    new: &Snapshot,
    old_tree: &Option<JsonValue>,
    new_tree: &Option<JsonValue>,
) -> (r: String)
    ensures
        r@ == diff_report(old.version, new.version, old.data@ == new.data@, *old_tree, *new_tree),
{
    let ghost lines = report_lines(old.version, new.version, old.data@ == new.data@, *old_tree, *new_tree);
    let mut head = String::from_str("Version ");
    write_signed(&mut head, old.version);
    head.append(" -> ");
    write_signed(&mut head, new.version);
    let ghost hl = seq![head@];
    assert(head@ == version_line(old.version, new.version));
    let mut out = String::new();
    add_line(&mut out, Ghost(Seq::empty()), true, head.as_str());
    assert(Seq::<Seq<char>>::empty().push(head@) =~= hl);
    if old.data == new.data {
        add_line(&mut out, Ghost(hl), false, "No data changes.");
        return out;
    }
    match (old_tree, new_tree) {
        (Some(a), Some(b)) => {
            let cs = diff_trees(a, b);
            if cs.len() == 0 {
                add_line(&mut out, Ghost(hl), false, "Data changed but no structural differences detected.");
                return out;
            }
            let ghost cv = diff_of(Seq::empty(), *a, *b);
            let mut i: usize = 0;
            while i < cs.len()
                invariant
                    i <= cs@.len(),
                    hl.len() == 1,
                    changes_view(cs@) == cv,
                    out@ == join_lines(hl + cv.subrange(0, i as int).map_values(|c: ChangeView| change_line(c))),
                decreases cs@.len() - i,
            {
                let line = change_text(&cs[i]);
                let ghost prefix = hl + cv.subrange(0, i as int).map_values(|c: ChangeView| change_line(c));
                assert(prefix.len() >= 1);
                add_line(&mut out, Ghost(prefix), false, line.as_str());
                assert(cv[i as int] == cs@[i as int]@);
                assert(prefix.push(line@) =~= hl + cv.subrange(0, i + 1).map_values(|c: ChangeView| change_line(c)));
                i = i + 1;
            }
            assert(cv.subrange(0, cv.len() as int) =~= cv);
            out
        },
        _ => {
            add_line(&mut out, Ghost(hl), false, "Data format changed (could not parse as JSON).");
            out
        },
    }
}

/// The report on what changed between two snapshots: the version transition,
/// then "no changes", a parse failure, or one line per structural difference.
pub fn diff_snapshots(old: &Snapshot, new: &Snapshot) -> (r: String)
    ensures
        r@ == diff_report(
            old.version,
            new.version,
            old.data@ == new.data@,
            parsed_json(old.data@),
            parsed_json(new.data@),
        ),
{
    if old.data == new.data {
        return report_from_trees(old, new, &None, &None);
    }
    let old_tree = parse_json(old.data.as_str());
    let new_tree = parse_json(new.data.as_str());
    report_from_trees(old, new, &old_tree, &new_tree)
}

/// A snapshot compared with itself gives the version line and the single
/// "no changes" line, and nothing else.
pub proof fn lemma_diff_identity(s: Snapshot)
    ensures
        report_lines(s.version, s.version, s.data@ == s.data@, parsed_json(s.data@), parsed_json(s.data@))
            == seq![version_line(s.version, s.version), "No data changes."@],
        diff_report(s.version, s.version, s.data@ == s.data@, parsed_json(s.data@), parsed_json(s.data@))
            == version_line(s.version, s.version) + seq!['\n'] + "No data changes."@,
{
    let lines = report_lines(s.version, s.version, true, parsed_json(s.data@), parsed_json(s.data@));
    assert(lines =~= seq![version_line(s.version, s.version), "No data changes."@]);
    assert(lines.drop_last() =~= seq![version_line(s.version, s.version)]);
    assert(join_lines(lines.drop_last()) == version_line(s.version, s.version));
    assert(join_lines(lines) == join_lines(lines.drop_last()) + seq!['\n'] + lines.last());
}

} // verus!
