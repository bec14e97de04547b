//! Reading log entries line by line: the simplified format has one entry
//! per line; the full format is a JSON array of entries spread over many
//! lines.

use vstd::prelude::*;

use crate::external::{json_status, spec_json_status, JsonStatus};
use crate::text::{same_text, spec_trim, spec_trim_trailing_commas, trim, trim_trailing_commas};
use crate::viewer::models::{LogEntry, SimplifiedLogEntry};
use crate::viewer::render::{
    log_entry_printable,
    log_entry_text,
    simplified_printable,
    simplified_text,
};

verus! {

/// What is written for one line of simplified input, where the entry it
/// holds (if any) is written in color or not as `on` says: the entry shown
/// as one line; or, where the line holds no entry, the line itself, unless
/// only entries are asked for (`strict`).
pub open spec fn simplified_output(
    line: Seq<char>,
    entry: Option<SimplifiedLogEntry>,
    color: bool,
    emoji: bool,
    strict: bool,
    on: (bool, bool),
) -> Option<Seq<char>> {
    match entry {
        Some(e) => Some(simplified_text(e, color, emoji, on.0, on.1)),
        None => if strict {
            None
        } else {
            Some(line)
        },
    }
}

/// The output for one line of simplified input.  `entry` is what the line
/// holds as a simplified entry, `None` where it is not one.
pub fn render_simplified_line(
    line: &str,
    entry: Option<SimplifiedLogEntry>,
    color: bool,
    emoji: bool,
    strict: bool,
) -> (output: Option<String>)
    requires
        entry matches Some(e) ==> simplified_printable(e),
    ensures
        exists|on: (bool, bool)|
            #[trigger] simplified_output(line@, entry, color, emoji, strict, on) == match output {
                Some(o) => Some(o@),
                None => None,
            },
{
    let ghost original = entry;
    match entry {
        Some(e) => {
            let printed = e.print(color, emoji);
            let ghost on = choose|on_severity: bool, on_message: bool|
                printed@ == simplified_text(original->0, color, emoji, on_severity, on_message);
            assert(simplified_output(line@, original, color, emoji, strict, on) == Some(printed@));
            Some(printed)
        },
        None => {
            let output = if strict {
                None
            } else {
                Some(line.to_owned())
            };
            assert(simplified_output(line@, original, color, emoji, strict, (false, false)) == match output {
                Some(o) => Some(o@),
                None => None,
            });
            output
        },
    }
}

/// Whether the entry of a line, if any, can be shown.
pub open spec fn simplified_entry_printable(entry: Option<SimplifiedLogEntry>) -> bool {
    entry matches Some(e) ==> simplified_printable(e)
}

/// The output for one line of simplified input, as `render_simplified_line`
/// gives it, where the entry can be shown; `None` where the line holds an
/// entry whose time chrono cannot hold.
pub fn checked_render_simplified_line(
    line: &str,
    entry: Option<SimplifiedLogEntry>,
    color: bool,
    emoji: bool,
    strict: bool,
) -> (output: Option<Option<String>>)
    ensures
        output is Some <==> simplified_entry_printable(entry),
        output matches Some(out) ==> exists|on: (bool, bool)|
            #[trigger] simplified_output(line@, entry, color, emoji, strict, on) == match out {
                Some(o) => Some(o@),
                None => None,
            },
{
    let printable = match &entry {
        Some(e) => e.is_printable(),
        None => true,
    };
    if printable {
        Some(render_simplified_line(line, entry, color, emoji, strict))
    } else {
        None
    }
}

/// Whether a trimmed line of the full format holds no part of an entry: an
/// opening or closing bracket of the array, an empty array, or nothing.
pub open spec fn is_frame(trimmed: Seq<char>) -> bool {
    trimmed == "["@ || trimmed == "]"@ || trimmed.len() == 0 || trimmed == "[]"@
}

/// One step of reading the full format: the text gathered so far and a new
/// line give the text gathered afterwards and, where it completes a record,
/// that record.  The line is added to the gathered text; where that text
/// (without commas at its end) is one JSON value, or holds an error that no
/// further line can mend, it is a record and the reader starts afresh;
/// where it only ends too early, it waits for more lines.
pub open spec fn structured_step(gathered: Seq<char>, line: Seq<char>) -> (
    Seq<char>,
    Option<Seq<char>>,
) {
    let trimmed = spec_trim(line);
    if is_frame(trimmed) {
        (gathered, None)
    } else if spec_json_status(spec_trim_trailing_commas(gathered + trimmed))
        == JsonStatus::Incomplete {
        (gathered + trimmed + " "@, None)
    } else {
        (seq![], Some(gathered + trimmed))
    }
}

/// A record of the full format: the text gathered for one entry, that text
/// without commas at its end, and whether that is one JSON value (where it
/// is not, it holds an error that no further text could mend).
pub struct Record {
    pub text: String,
    pub json: String,
    pub complete: bool,
}

/// Gathers the lines of the full format into records, one entry each.
pub struct StructuredReader {
    pub gathered: String,
}

impl StructuredReader {
    /// A reader that has gathered nothing yet.
    pub fn new() -> (reader: Self)
        ensures
            reader.gathered@ == Seq::<char>::empty(),
    {
        StructuredReader { gathered: String::new() }
    }

    /// Takes the next line and returns the record that it completes, if any.
    pub fn push_line(&mut self, line: &str) -> (record: Option<Record>)
        ensures
            final(self).gathered@ == structured_step(old(self).gathered@, line@).0,
            match record {
                Some(r) => structured_step(old(self).gathered@, line@).1 == Some(r.text@),
                None => structured_step(old(self).gathered@, line@).1 is None,
            },
            record matches Some(r) ==> r.json@ == spec_trim_trailing_commas(r.text@),
            record matches Some(r) ==> r.complete == (spec_json_status(r.json@)
                == JsonStatus::Complete),
    {
        let trimmed = trim(line);
        let t = trimmed.as_str();
        if same_text(t, "[") || same_text(t, "]") || t.unicode_len() == 0 || same_text(t, "[]") {
            return None;
        }
        self.gathered.append(t);
        let json = trim_trailing_commas(self.gathered.as_str());
        let status = json_status(json.as_str());
        match status {
            JsonStatus::Incomplete => {
                self.gathered.append(" ");
                None
            },
            _ => {
                let complete = match status {
                    JsonStatus::Complete => true,
                    _ => false,
                };
                let mut text = String::new();
                std::mem::swap(&mut text, &mut self.gathered);
                Some(Record { text, json, complete })
            },
        }
    }
}

/// A line completes a record only where the reader then starts afresh, and
/// leaves the text gathered so far only where the text ends too early to
/// judge.  So a line that cannot belong to a JSON value is given back as a
/// record at once, and holds back none of the lines after it.
pub proof fn lemma_record_resets_reader(gathered: Seq<char>, line: Seq<char>)
    ensures
        structured_step(gathered, line).1 is Some ==> structured_step(gathered, line).0.len() == 0,
        structured_step(gathered, line).1 is None ==> (is_frame(spec_trim(line)) || spec_json_status(
            spec_trim_trailing_commas(gathered + spec_trim(line)),
        ) == JsonStatus::Incomplete),
{
}

/// A reader that has gathered nothing gives a line that holds a whole JSON
/// value back as a record of its own.
pub proof fn lemma_whole_line_record(line: Seq<char>)
    requires
        !is_frame(spec_trim(line)),
        spec_json_status(spec_trim_trailing_commas(spec_trim(line))) == JsonStatus::Complete,
    ensures
        structured_step(seq![], line) == (Seq::<char>::empty(), Some(spec_trim(line))),
{
    assert(Seq::<char>::empty() + spec_trim(line) =~= spec_trim(line));
}

/// What is written for one record of the full format, where its entry (if
/// any) is written in color or not as `on` says: the entry shown as one
/// line; or, where the record holds no entry, `# ` and the record, unless
/// only entries are asked for (`strict`).
pub open spec fn structured_output(
    record: Seq<char>,
    entry: Option<LogEntry>,
    color: bool,
    emoji: bool,
    strict: bool,
    on: (bool, bool),
) -> Option<Seq<char>> {
    match entry {
        Some(e) => Some(log_entry_text(e, color, emoji, on.0, on.1)),
        None => if strict {
            None
        } else {
            Some("# "@ + record)
        },
    }
}

/// The output for one record of the full format.  `entry` is what the
/// record holds as a full log entry, `None` where it is not one.
pub fn render_structured_record(
    record: &str,
    entry: Option<LogEntry>,
    color: bool,
    emoji: bool,
    strict: bool,
) -> (output: Option<String>)
    requires
        entry matches Some(e) ==> log_entry_printable(e),
    ensures
        exists|on: (bool, bool)|
            #[trigger] structured_output(record@, entry, color, emoji, strict, on) == match output {
                Some(o) => Some(o@),
                None => None,
            },
{
    let ghost original = entry;
    match entry {
        Some(e) => {
            let printed = e.print(color, emoji);
            let ghost on = choose|on_severity: bool, on_message: bool|
                printed@ == log_entry_text(original->0, color, emoji, on_severity, on_message);
            assert(structured_output(record@, original, color, emoji, strict, on) == Some(
                printed@,
            ));
            Some(printed)
        },
        None => {
            let output = if strict {
                None
            } else {
                let mut text = "# ".to_owned();
                text.append(record);
                Some(text)
            };
            assert(structured_output(record@, original, color, emoji, strict, (false, false))
                == match output {
                Some(o) => Some(o@),
                None => None,
            });
            output
        },
    }
}

/// Whether the entry of a record, if any, can be shown.
pub open spec fn structured_entry_printable(entry: Option<LogEntry>) -> bool {
    entry matches Some(e) ==> log_entry_printable(e)
}

/// The output for one record of the full format, as
/// `render_structured_record` gives it, where the entry can be shown;
/// `None` where the record holds an entry without a valid RFC 3339
/// timestamp.
pub fn checked_render_structured_record(
    record: &str,
    entry: Option<LogEntry>,
    color: bool,
    emoji: bool,
    strict: bool,
) -> (output: Option<Option<String>>)
    ensures
        output is Some <==> structured_entry_printable(entry),
        output matches Some(out) ==> exists|on: (bool, bool)|
            #[trigger] structured_output(record@, entry, color, emoji, strict, on) == match out {
                Some(o) => Some(o@),
                None => None,
            },
{
    let printable = match &entry {
        Some(e) => e.is_printable(),
        None => true,
    };
    if printable {
        Some(render_structured_record(record, entry, color, emoji, strict))
    } else {
        None
    }
}

/// The lines written for a run of simplified input: for each input line,
/// with the entry it holds and the colors it is written with, its output
/// where it has one.
pub open spec fn simplified_run(
    lines: Seq<Seq<char>>,
    entries: Seq<Option<SimplifiedLogEntry>>,
    color: bool,
    emoji: bool,
    strict: bool,
    ons: Seq<(bool, bool)>,
) -> Seq<Seq<char>>
    decreases lines.len(),
{
    if lines.len() == 0 {
        seq![]
    } else {
        let last = lines.len() - 1;
        let before = simplified_run(
            lines.drop_last(),
            entries.drop_last(),
            color,
            emoji,
            strict,
            ons.drop_last(),
        );
        match simplified_output(lines[last], entries[last], color, emoji, strict, ons[last]) {
            Some(output) => before.push(output),
            None => before,
        }
    }
}

/// The outputs whose mark is set, in their order.
pub open spec fn keep_marked(outputs: Seq<Seq<char>>, marks: Seq<bool>) -> Seq<Seq<char>>
    decreases outputs.len(),
{
    if outputs.len() == 0 {
        seq![]
    } else {
        let before = keep_marked(outputs.drop_last(), marks.drop_last());
        if marks[outputs.len() - 1] {
            before.push(outputs.last())
        } else {
            before
        }
    }
}

/// For each input, whether it holds an entry.
pub open spec fn entry_marks<E>(entries: Seq<Option<E>>) -> Seq<bool> {
    entries.map_values(|entry: Option<E>| entry is Some)
}

/// Without `strict`, each line of simplified input is written, as its entry
/// or as it is; with `strict`, the output is that output without the lines
/// that hold no entry, the entries written alike and in the same order.
pub proof fn lemma_simplified_strict(
    lines: Seq<Seq<char>>,
    entries: Seq<Option<SimplifiedLogEntry>>,
    color: bool,
    emoji: bool,
    ons: Seq<(bool, bool)>,
)
    requires
        lines.len() == entries.len(),
        lines.len() == ons.len(),
    ensures
        simplified_run(lines, entries, color, emoji, false, ons).len() == lines.len(),
        simplified_run(lines, entries, color, emoji, true, ons) == keep_marked(
            simplified_run(lines, entries, color, emoji, false, ons),
            entry_marks(entries),
        ),
    decreases lines.len(),
{
    if lines.len() > 0 {
        let n = lines.len() - 1;
        lemma_simplified_strict(
            lines.drop_last(),
            entries.drop_last(),
            color,
            emoji,
            ons.drop_last(),
        );
        let lax = simplified_run(lines, entries, color, emoji, false, ons);
        let lax_before = simplified_run(
            lines.drop_last(),
            entries.drop_last(),
            color,
            emoji,
            false,
            ons.drop_last(),
        );
        assert(lax.drop_last() =~= lax_before);
        assert(entry_marks(entries).drop_last() =~= entry_marks(entries.drop_last()));
        assert(entry_marks(entries)[n] == entries[n] is Some);
    }
}

/// The lines written for a run of records of the full format.
pub open spec fn structured_run(
    records: Seq<Seq<char>>,
    entries: Seq<Option<LogEntry>>,
    color: bool,
    emoji: bool,
    strict: bool,
    ons: Seq<(bool, bool)>,
) -> Seq<Seq<char>>
    decreases records.len(),
{
    if records.len() == 0 {
        seq![]
    } else {
        let last = records.len() - 1;
        let before = structured_run(
            records.drop_last(),
            entries.drop_last(),
            color,
            emoji,
            strict,
            ons.drop_last(),
        );
        match structured_output(records[last], entries[last], color, emoji, strict, ons[last]) {
            Some(output) => before.push(output),
            None => before,
        }
    }
}

/// Without `strict`, each record of the full format is written, as its
/// entry or as `# ` and its text; with `strict`, the output is that output
/// without the records that hold no entry, the entries written alike and in
/// the same order.
pub proof fn lemma_structured_strict(
    records: Seq<Seq<char>>,
    entries: Seq<Option<LogEntry>>,
    color: bool,
    emoji: bool,
    ons: Seq<(bool, bool)>,
)
    requires
        records.len() == entries.len(),
        records.len() == ons.len(),
    ensures
        structured_run(records, entries, color, emoji, false, ons).len() == records.len(),
        structured_run(records, entries, color, emoji, true, ons) == keep_marked(
            structured_run(records, entries, color, emoji, false, ons),
            entry_marks(entries),
        ),
    decreases records.len(),
{
    if records.len() > 0 {
        let n = records.len() - 1;
        lemma_structured_strict(
            records.drop_last(),
            entries.drop_last(),
            color,
            emoji,
            ons.drop_last(),
        );
        let lax = structured_run(records, entries, color, emoji, false, ons);
        let lax_before = structured_run(
            records.drop_last(),
            entries.drop_last(),
            color,
            emoji,
            false,
            ons.drop_last(),
        );
        assert(lax.drop_last() =~= lax_before);
        assert(entry_marks(entries).drop_last() =~= entry_marks(entries.drop_last()));
        assert(entry_marks(entries)[n] == entries[n] is Some);
    }
}

/// A line that, trimmed, is an opening bracket `[`, a closing bracket `]`,
/// an empty array `[]`, or nothing completes no record and leaves the
/// gathered text as it was: such lines are skipped, so an empty export
/// (`[]`) gives no output.
pub proof fn lemma_bracket_lines_skipped(gathered: Seq<char>, line: Seq<char>)
    requires
        spec_trim(line) == seq!['['] || spec_trim(line) == seq![']'] || spec_trim(line) == seq![
            '[',
            ']',
        ] || spec_trim(line).len() == 0,
    ensures
        structured_step(gathered, line) == (gathered, None::<Seq<char>>),
{
    reveal_strlit("[");
    reveal_strlit("]");
    reveal_strlit("[]");
    assert("["@ =~= seq!['[']);
    assert("]"@ =~= seq![']']);
    assert("[]"@ =~= seq!['[', ']']);
}

/// Lines that hold only the brackets of the array, or nothing, leave the
/// reader as it was and complete no record.
pub proof fn lemma_frame_lines_ignored(gathered: Seq<char>, line: Seq<char>)
    requires
        is_frame(spec_trim(line)),
    ensures
        structured_step(gathered, line) == (gathered, None::<Seq<char>>),
{
}

} // verus!
