//! The report of a search: a heading and a numbered list of what was found.

use vstd::prelude::*;

use crate::text::{concat2, concat3, decimal, join_lines, joined, to_decimal};

verus! {

/// One thing that was found. The note is left out of the report where it is empty.
pub struct Entry {
    pub title: String,
    pub source: Option<String>,
    pub url: String,
    pub note: String,
}

/// The view of an [`Entry`].
pub struct EntryView {
    pub title: Seq<char>,
    pub source: Option<Seq<char>>,
    pub url: Seq<char>,
    pub note: Seq<char>,
}

impl DeepView for Entry {
    type V = EntryView;

    open spec fn deep_view(&self) -> EntryView {
        EntryView {
            title: self.title@,
            source: self.source.deep_view(),
            url: self.url@,
            note: self.note@,
        }
    }
}

/// The smaller of two numbers.
pub open spec fn smaller(a: nat, b: nat) -> nat {
    if a < b {
        a
    } else {
        b
    }
}

/// A line that is set in under a title.
pub open spec fn indented(text: Seq<char>) -> Seq<char> {
    "   "@ + text
}

/// The lines that the report has for the entry with number `n`.
pub open spec fn entry_lines(n: nat, entry: EntryView) -> Seq<Seq<char>> {
    let title = seq![decimal(n) + ". "@ + entry.title];
    let source = match entry.source {
        Some(s) => seq![indented(s)],
        None => Seq::empty(),
    };
    let url = seq![indented(entry.url)];
    let note = if entry.note.len() > 0 {
        seq![indented(entry.note)]
    } else {
        Seq::empty()
    };
    title + source + url + note
}

/// The lines of the report: the heading, and those of the entries, numbered from 1.
pub open spec fn report_lines(heading: Seq<char>, entries: Seq<EntryView>) -> Seq<Seq<char>>
    decreases entries.len(),
{
    if entries.len() == 0 {
        seq![heading]
    } else {
        report_lines(heading, entries.drop_last()) + entry_lines(entries.len(), entries.last())
    }
}

/// The report.
pub open spec fn report(heading: Seq<char>, entries: Seq<EntryView>) -> Seq<char> {
    joined(report_lines(heading, entries))
}

fn indent(text: &str) -> (res: String)
    ensures
        res@ == indented(text@),
{
    concat2("   ", text)
}

fn push_entry(lines: &mut Vec<String>, n: usize, entry: &Entry)
    ensures
        final(lines).deep_view() == old(lines).deep_view() + entry_lines(
            n as nat,
            entry.deep_view(),
        ),
{
    let ghost before = lines.deep_view();
    let number = to_decimal(n);
    lines.push(concat3(number.as_str(), ". ", entry.title.as_str()));
    let ghost mut seen = before.push(decimal(n as nat) + ". "@ + entry.title@);
    assert(lines.deep_view() == seen);
    if let Some(source) = &entry.source {
        lines.push(indent(source.as_str()));
        proof {
            seen = seen.push(indented(source@));
        }
        assert(lines.deep_view() == seen);
    }
    lines.push(indent(entry.url.as_str()));
    proof {
        seen = seen.push(indented(entry.url@));
    }
    assert(lines.deep_view() == seen);
    if !entry.note.as_str().is_empty() {
        lines.push(indent(entry.note.as_str()));
        proof {
            seen = seen.push(indented(entry.note@));
        }
        assert(lines.deep_view() == seen);
    }
    assert(seen == before + entry_lines(n as nat, entry.deep_view()));
}

/// Writes the report.
pub fn render_report(heading: &str, entries: &Vec<Entry>) -> (res: String)
    ensures
        res@ == report(heading@, entries.deep_view()),
{
    let mut lines: Vec<String> = Vec::new();
    lines.push(heading.to_string());
    let ghost all = entries.deep_view();
    assert(lines.deep_view() == report_lines(heading@, all.take(0)));
    for i in 0..entries.len()
        invariant
            all == entries.deep_view(),
            lines.deep_view() == report_lines(heading@, all.take(i as int)),
    {
        push_entry(&mut lines, i + 1, &entries[i]);
        assert(all.take(i + 1).drop_last() == all.take(i as int));
        assert(all.take(i + 1).last() == entries@[i as int].deep_view());
    }
    assert(all.take(all.len() as int) == all);
    join_lines(&lines)
}

} // verus!
