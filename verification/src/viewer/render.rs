//! How a log entry is shown: severity, message, labels and source location
//! on one line.

use vstd::prelude::*;

use crate::external::{paint, rfc3339_millis, spec_rfc3339_millis, spec_utc_millis, utc_millis};
use crate::text::{
    join,
    join_texts,
    keys_unique,
    lemma_sort_ignores_order,
    sort_by_key,
    sort_pairs_by_key,
    texts,
};
use crate::viewer::models;
use crate::viewer::models::{severity_label, LabelValue, LogEntry, SimplifiedLogEntry, SourceLocation};

verus! {

/// The foreground colors that the viewer uses.
#[derive(Clone, Copy, Debug, PartialEq, Eq, Structural)]
pub enum Paint {
    White,
    Yellow,
    Cyan,
    Magenta,
    Red,
}

/// The ANSI code of a foreground color.
pub open spec fn paint_code(color: Paint) -> Seq<char> {
    match color {
        Paint::White => seq!['3', '7'],
        Paint::Yellow => seq!['3', '3'],
        Paint::Cyan => seq!['3', '6'],
        Paint::Magenta => seq!['3', '5'],
        Paint::Red => seq!['3', '1'],
    }
}

/// The escape sequence that selects a foreground color.
pub open spec fn color_start(color: Paint) -> Seq<char> {
    seq!['\u{1b}', '['] + paint_code(color) + seq!['m']
}

/// The escape sequence that resets all colors.
pub open spec fn color_reset() -> Seq<char> {
    seq!['\u{1b}', '[', '0', 'm']
}

/// The text with `start` written again after each reset sequence in it.
pub open spec fn restart_after_resets(text: Seq<char>, start: Seq<char>) -> Seq<char>
    decreases text.len(),
{
    if text.len() == 0 {
        text
    } else if text.len() >= 4 && text.take(4) == color_reset() {
        color_reset() + start + restart_after_resets(text.skip(4), start)
    } else {
        seq![text[0]] + restart_after_resets(text.drop_first(), start)
    }
}

/// A text shown in a foreground color.
pub open spec fn painted(text: Seq<char>, color: Paint) -> Seq<char> {
    color_start(color) + restart_after_resets(text, color_start(color)) + color_reset()
}

/// A text as it is shown: in `color` where one is given and colors are
/// written (`on`), as it is otherwise.
pub open spec fn in_color(text: Seq<char>, color: Option<Paint>, on: bool) -> Seq<char> {
    match color {
        Some(c) => if on {
            painted(text, c)
        } else {
            text
        },
        None => text,
    }
}

/// Shows a text in a color, or as it is where `color` is `None`
/// (`Colorize::normal`, which writes the text unchanged).
fn show(text: &str, color: Option<Paint>) -> (shown: String)
    ensures
        exists|on: bool| shown@ == in_color(text@, color, on),
{
    match color {
        Some(c) => {
            let shown = paint(text, c);
            proof {
                if shown@ == text@ {
                    assert(shown@ == in_color(text@, color, false));
                } else {
                    assert(shown@ == in_color(text@, color, true));
                }
            }
            shown
        },
        None => {
            let shown = text.to_owned();
            assert(shown@ == in_color(text@, color, false));
            shown
        },
    }
}

/// The emoji, followed by spaces, that shows a severity.
pub open spec fn severity_emoji(severity: models::Severity, emoji: bool) -> Seq<char> {
    if !emoji {
        ""@
    } else {
        match severity {
            models::Severity::Default => "\u{1f43e} "@,
            models::Severity::Debug => "\u{1fab2} "@,
            models::Severity::Info => "\u{2139}\u{fe0f}  "@,
            models::Severity::Notice => "\u{1f43c} "@,
            models::Severity::Warning => "\u{26a0}\u{fe0f}  "@,
            models::Severity::Error => "\u{26d4} "@,
            models::Severity::Critical => "\u{1f4a5} "@,
            models::Severity::Alert => "\u{1f4a5} "@,
            models::Severity::Emergency => "\u{1f4a5} "@,
        }
    }
}

/// The color that a severity is shown in, where colors are asked for.
pub open spec fn severity_color(severity: models::Severity, color: bool) -> Option<Paint> {
    if !color {
        None
    } else {
        match severity {
            models::Severity::Default => Some(Paint::White),
            models::Severity::Debug => Some(Paint::Yellow),
            models::Severity::Info => Some(Paint::Cyan),
            models::Severity::Notice => Some(Paint::White),
            models::Severity::Warning => Some(Paint::Magenta),
            models::Severity::Error => Some(Paint::Red),
            models::Severity::Critical => Some(Paint::Red),
            models::Severity::Alert => Some(Paint::Red),
            models::Severity::Emergency => Some(Paint::Red),
        }
    }
}

/// How a severity is shown: its emoji (where emojis are asked for), then its
/// name in its color (where colors are asked for and written).
pub open spec fn severity_text(severity: models::Severity, color: bool, emoji: bool, on: bool) -> Seq<
    char,
> {
    severity_emoji(severity, emoji) + in_color(severity_label(severity), severity_color(severity, color), on)
}

/// A severity together with the choice of colors and emojis it is shown
/// with.
#[derive(Clone, Copy, Debug)]
pub struct Severity {
    pub severity: models::Severity,
    pub emoji: bool,
    pub color: bool,
}

impl Severity {
    pub fn new(severity: models::Severity, color: bool, emoji: bool) -> (shown: Self)
        ensures
            shown.severity == severity,
            shown.color == color,
            shown.emoji == emoji,
    {
        Self { severity, color, emoji }
    }

    /// The severity as it is shown (its `Display` form).
    pub fn to_text(&self) -> (text: String)
        ensures
            exists|on: bool| text@ == severity_text(self.severity, self.color, self.emoji, on),
    {
        let emoji: &str = if !self.emoji {
            ""
        } else {
            match self.severity {
                models::Severity::Default => "\u{1f43e} ",
                models::Severity::Debug => "\u{1fab2} ",
                models::Severity::Info => "\u{2139}\u{fe0f}  ",
                models::Severity::Notice => "\u{1f43c} ",
                models::Severity::Warning => "\u{26a0}\u{fe0f}  ",
                models::Severity::Error => "\u{26d4} ",
                models::Severity::Critical => "\u{1f4a5} ",
                models::Severity::Alert => "\u{1f4a5} ",
                models::Severity::Emergency => "\u{1f4a5} ",
            }
        };
        let color = if !self.color {
            None
        } else {
            match self.severity {
                models::Severity::Default => Some(Paint::White),
                models::Severity::Debug => Some(Paint::Yellow),
                models::Severity::Info => Some(Paint::Cyan),
                models::Severity::Notice => Some(Paint::White),
                models::Severity::Warning => Some(Paint::Magenta),
                models::Severity::Error => Some(Paint::Red),
                models::Severity::Critical => Some(Paint::Red),
                models::Severity::Alert => Some(Paint::Red),
                models::Severity::Emergency => Some(Paint::Red),
            }
        };
        assert(color == severity_color(self.severity, self.color));
        let label = self.severity.label();
        let name = show(label, color);
        let ghost on = choose|on: bool| name@ == in_color(label@, color, on);
        let mut text = emoji.to_owned();
        assert(text@ == severity_emoji(self.severity, self.emoji));
        text.append(name.as_str());
        assert(text@ == severity_text(self.severity, self.color, self.emoji, on));
        text
    }
}

/// The key and value of a label, as `key=value`.
pub open spec fn pair_text(pair: (String, String)) -> Seq<char> {
    pair.0@ + "="@ + pair.1@
}

pub open spec fn pair_texts(pairs: Seq<(String, String)>) -> Seq<Seq<char>> {
    pairs.map_values(|pair: (String, String)| pair_text(pair))
}

/// How labels are shown: nothing where there are none, otherwise a space and
/// the `key=value` pairs in their order, separated by commas, in brackets.
pub open spec fn labels_text(labels: Option<Seq<(String, String)>>) -> Seq<char> {
    match labels {
        Some(pairs) => if pairs.len() > 0 {
            " ("@ + join(pair_texts(pairs), ", "@) + ")"@
        } else {
            seq![]
        },
        None => seq![],
    }
}

/// The labels of a log entry, in the order in which they are shown.
pub struct Labels(pub Option<Vec<(String, String)>>);

impl Labels {
    /// The labels as they are shown (their `Display` form).
    pub fn to_text(&self) -> (text: String)
        ensures
            text@ == labels_text(
                match self.0 {
                    Some(pairs) => Some(pairs@),
                    None => None,
                },
            ),
    {
        match &self.0 {
            Some(pairs) => {
                if pairs.len() == 0 {
                    return String::new();
                }
                let mut parts: Vec<String> = Vec::new();
                let n = pairs.len();
                let mut i: usize = 0;
                while i < n
                    invariant
                        i <= n,
                        n == pairs@.len(),
                        texts(parts@) =~= pair_texts(pairs@).take(i as int),
                    decreases n - i,
                {
                    let mut part = pairs[i].0.clone();
                    part.append("=");
                    part.append(pairs[i].1.as_str());
                    assert(part@ == pair_text(pairs@[i as int]));
                    let ghost before = parts@;
                    parts.push(part);
                    assert(texts(parts@) =~= texts(before).push(part@));
                    assert(pair_texts(pairs@).take(i + 1) =~= pair_texts(pairs@).take(i as int).push(
                        pair_text(pairs@[i as int]),
                    ));
                    i = i + 1;
                }
                assert(pair_texts(pairs@).take(n as int) =~= pair_texts(pairs@));
                let mut text = " (".to_owned();
                let joined = join_texts(&parts, ", ");
                text.append(joined.as_str());
                text.append(")");
                text
            },
            None => String::new(),
        }
    }
}

/// `name` and the value, where there is a value.
pub open spec fn source_part(name: Seq<char>, value: Option<String>) -> Seq<Seq<char>> {
    match value {
        Some(v) => seq![name + v@],
        None => seq![],
    }
}

/// The parts of a source location that are known, in the order file, line,
/// function.
pub open spec fn source_parts(location: SourceLocation) -> Seq<Seq<char>> {
    source_part("file="@, location.file) + source_part("line="@, location.line) + source_part(
        "function="@,
        location.function,
    )
}

/// How a source location is shown: nothing where no part of it is known,
/// otherwise a space and the known parts, separated by commas, in brackets.
pub open spec fn sources_text(location: Option<SourceLocation>) -> Seq<char> {
    match location {
        Some(loc) => if source_parts(loc).len() > 0 {
            " ("@ + join(source_parts(loc), ", "@) + ")"@
        } else {
            seq![]
        },
        None => seq![],
    }
}

fn push_part(parts: &mut Vec<String>, name: &str, value: &Option<String>)
    ensures
        texts(final(parts)@) == texts(old(parts)@) + source_part(name@, *value),
{
    match value {
        Some(v) => {
            let mut part = name.to_owned();
            part.append(v.as_str());
            parts.push(part);
            assert(texts(parts@) =~= texts(old(parts)@) + source_part(name@, *value));
        },
        None => {
            assert(texts(parts@) =~= texts(old(parts)@) + source_part(name@, *value));
        },
    }
}

/// The source location of a log entry.
pub struct Sources(pub Option<SourceLocation>);

impl Sources {
    /// The source location as it is shown (its `Display` form).
    pub fn to_text(&self) -> (text: String)
        ensures
            text@ == sources_text(self.0),
    {
        match &self.0 {
            Some(location) => {
                let mut parts: Vec<String> = Vec::new();
                push_part(&mut parts, "file=", &location.file);
                push_part(&mut parts, "line=", &location.line);
                push_part(&mut parts, "function=", &location.function);
                assert(texts(parts@) =~= source_parts(*location));
                if parts.len() == 0 {
                    String::new()
                } else {
                    let mut text = " (".to_owned();
                    let joined = join_texts(&parts, ", ");
                    text.append(joined.as_str());
                    text.append(")");
                    text
                }
            },
            None => String::new(),
        }
    }
}

/// Without colors and emojis a severity is shown by its name alone.
pub proof fn lemma_plain_severity(severity: models::Severity, on: bool)
    ensures
        severity_text(severity, false, false, on) == severity_label(severity),
{
    reveal_strlit("");
    assert(severity_text(severity, false, false, on) =~= severity_label(severity));
}

/// How labels given as the entries of a map are shown does not depend on
/// the order in which the map gave them.
pub proof fn lemma_labels_order_irrelevant(a: Seq<(String, String)>, b: Seq<(String, String)>)
    requires
        keys_unique(a),
        a.to_multiset() =~= b.to_multiset(),
    ensures
        labels_text(Some(sort_by_key(a))) == labels_text(Some(sort_by_key(b))),
{
    lemma_sort_ignores_order(a, b);
}

/// A message as it is shown: in cyan where colors are asked for and
/// written.
pub open spec fn message_text(message: Seq<char>, color: bool, on: bool) -> Seq<char> {
    in_color(message, if color { Some(Paint::Cyan) } else { None }, on)
}

/// A text kept to one line: each line feed written as `\n` and each
/// carriage return as `\r`, every other character as it is.
pub open spec fn single_line(text: Seq<char>) -> Seq<char>
    decreases text.len(),
{
    if text.len() == 0 {
        text
    } else {
        single_line(text.drop_last()) + if text.last() == '\n' {
            seq!['\\', 'n']
        } else if text.last() == '\r' {
            seq!['\\', 'r']
        } else {
            seq![text.last()]
        }
    }
}

/// A text kept to one line holds no line feed and no carriage return.
pub proof fn lemma_single_line_has_no_breaks(text: Seq<char>)
    ensures
        forall|i: int|
            0 <= i < single_line(text).len() ==> #[trigger] single_line(text)[i] != '\n'
                && single_line(text)[i] != '\r',
    decreases text.len(),
{
    if text.len() > 0 {
        let before = single_line(text.drop_last());
        lemma_single_line_has_no_breaks(text.drop_last());
        let tail = if text.last() == '\n' {
            seq!['\\', 'n']
        } else if text.last() == '\r' {
            seq!['\\', 'r']
        } else {
            seq![text.last()]
        };
        assert(single_line(text) == before + tail);
        assert forall|i: int| 0 <= i < single_line(text).len() implies #[trigger] single_line(
            text,
        )[i] != '\n' && single_line(text)[i] != '\r' by {
            if i < before.len() {
                assert(single_line(text)[i] == before[i]);
            } else {
                assert(single_line(text)[i] == tail[i - before.len()]);
            }
        }
    }
}

/// A text without line feeds and carriage returns is kept as it is.
pub proof fn lemma_single_line_keeps_one_line(text: Seq<char>)
    requires
        forall|i: int| 0 <= i < text.len() ==> text[i] != '\n' && text[i] != '\r',
    ensures
        single_line(text) == text,
    decreases text.len(),
{
    if text.len() > 0 {
        lemma_single_line_keeps_one_line(text.drop_last());
        assert(single_line(text) =~= text);
    }
}

/// A text kept to one line.
fn keep_single_line(text: &str) -> (line: String)
    ensures
        line@ == single_line(text@),
{
    let n = text.unicode_len();
    let mut line = String::new();
    let mut i: usize = 0;
    assert(text@.take(0) =~= Seq::<char>::empty());
    while i < n
        invariant
            i <= n,
            n == text@.len(),
            line@ == single_line(text@.take(i as int)),
        decreases n - i,
    {
        let c = text.get_char(i);
        if c == '\n' {
            line.append("\\n");
            proof {
                reveal_strlit("\\n");
            }
        } else if c == '\r' {
            line.append("\\r");
            proof {
                reveal_strlit("\\r");
            }
        } else {
            line.append(text.substring_char(i, i + 1));
        }
        assert(text@.take(i + 1).drop_last() =~= text@.take(i as int));
        assert(line@ =~= single_line(text@.take(i + 1)));
        i = i + 1;
    }
    assert(text@.take(n as int) =~= text@);
    line
}

/// One shown line: the timestamp in brackets, the severity, a colon, the
/// message, the labels and the source location, kept to one line.
pub open spec fn line_text(
    time: Seq<char>,
    severity: Seq<char>,
    message: Seq<char>,
    labels: Seq<char>,
    sources: Seq<char>,
) -> Seq<char> {
    single_line("["@ + time + "] "@ + severity + ": "@ + message + labels + sources)
}

fn assemble_line(time: &str, severity: &str, message: &str, labels: &str, sources: &str) -> (line:
    String)
    ensures
        line@ == line_text(time@, severity@, message@, labels@, sources@),
{
    let mut line = "[".to_owned();
    line.append(time);
    line.append("] ");
    line.append(severity);
    line.append(": ");
    line.append(message);
    line.append(labels);
    line.append(sources);
    keep_single_line(line.as_str())
}

/// The payload of a full entry: its text payload, else the JSON text of its
/// JSON payload, else `[empty]`.
pub open spec fn payload_text(entry: LogEntry) -> Seq<char> {
    match entry.text_payload {
        Some(text) => text@,
        None => match entry.json_payload {
            Some(json) => json@,
            None => "[empty]"@,
        },
    }
}

/// Whether a full entry can be shown: it has a timestamp, and the
/// timestamp is a valid RFC 3339 timestamp.
pub open spec fn log_entry_printable(entry: LogEntry) -> bool {
    &&& entry.timestamp is Some
    &&& spec_rfc3339_millis(entry.timestamp->0@) is Some
}

/// How a full entry is shown, where the severity and the message are
/// written in color or not as `on_severity` and `on_message` say.
pub open spec fn log_entry_text(
    entry: LogEntry,
    color: bool,
    emoji: bool,
    on_severity: bool,
    on_message: bool,
) -> Seq<char> {
    line_text(
        spec_rfc3339_millis(entry.timestamp->0@)->0,
        severity_text(
            match entry.severity {
                Some(s) => s,
                None => models::Severity::Default,
            },
            color,
            emoji,
            on_severity,
        ),
        message_text(payload_text(entry), color, on_message),
        labels_text(
            match entry.labels {
                Some(pairs) => Some(sort_by_key(pairs@)),
                None => None,
            },
        ),
        sources_text(entry.source_location),
    )
}

fn show_message(message: &str, color: bool) -> (shown: String)
    ensures
        exists|on: bool| shown@ == message_text(message@, color, on),
{
    let paint = if color {
        Some(Paint::Cyan)
    } else {
        None
    };
    let shown = show(message, paint);
    let ghost on = choose|on: bool| shown@ == in_color(message@, paint, on);
    assert(shown@ == message_text(message@, color, on));
    shown
}

/// Without colors, a full entry is shown the same way whether or not the
/// terminal would take colors.
pub proof fn lemma_plain_log_entry(entry: LogEntry, emoji: bool, a: bool, b: bool, c: bool, d: bool)
    ensures
        log_entry_text(entry, false, emoji, a, b) == log_entry_text(entry, false, emoji, c, d),
{
}

impl LogEntry {
    /// The entry as one line: the timestamp with millisecond precision, the
    /// severity (`Default` where it has none), the payload, the labels
    /// sorted by key, the source location.
    pub fn print(self, color: bool, emoji: bool) -> (line: String)
        requires
            log_entry_printable(self),
        ensures
            exists|on_severity: bool, on_message: bool|
                line@ == log_entry_text(self, color, emoji, on_severity, on_message),
    {
        let ghost entry = self;
        let time = match &self.timestamp {
            Some(timestamp) => match rfc3339_millis(timestamp.as_str()) {
                Some(time) => time,
                None => {
                    assert(false);
                    String::new()
                },
            },
            None => String::new(),
        };
        let payload = match self.text_payload {
            Some(text) => text,
            None => match self.json_payload {
                Some(json) => json,
                None => "[empty]".to_owned(),
            },
        };
        assert(payload@ == payload_text(entry));
        let message = show_message(payload.as_str(), color);
        let severity = Severity::new(
            match self.severity {
                Some(s) => s,
                None => models::Severity::default(),
            },
            color,
            emoji,
        ).to_text();
        let labels = Labels(
            match self.labels {
                Some(pairs) => Some(sort_pairs_by_key(pairs)),
                None => None,
            },
        ).to_text();
        let sources = Sources(self.source_location).to_text();
        let line = assemble_line(
            time.as_str(),
            severity.as_str(),
            message.as_str(),
            labels.as_str(),
            sources.as_str(),
        );
        let ghost shown_severity = match entry.severity {
            Some(s) => s,
            None => models::Severity::Default,
        };
        let ghost on_severity = choose|on: bool|
            severity@ == severity_text(shown_severity, color, emoji, on);
        let ghost on_message = choose|on: bool| message@ == message_text(payload@, color, on);
        assert(line@ == log_entry_text(entry, color, emoji, on_severity, on_message));
        line
    }

    /// Whether the entry can be shown: it has a timestamp in RFC 3339 form.
    pub fn is_printable(&self) -> (printable: bool)
        ensures
            printable == log_entry_printable(*self),
    {
        match &self.timestamp {
            Some(timestamp) => rfc3339_millis(timestamp.as_str()).is_some(),
            None => false,
        }
    }

    /// The entry as one line, where it can be shown; `None` where it has no
    /// timestamp or its timestamp is not valid RFC 3339.
    pub fn try_print(self, color: bool, emoji: bool) -> (line: Option<String>)
        ensures
            line is Some <==> log_entry_printable(self),
            line matches Some(l) ==> exists|on_severity: bool, on_message: bool|
                l@ == log_entry_text(self, color, emoji, on_severity, on_message),
    {
        if self.is_printable() {
            Some(self.print(color, emoji))
        } else {
            None
        }
    }
}

/// The label value as text: a string by its contents, any other value by
/// its JSON text.
pub open spec fn label_value_string(value: LabelValue) -> String {
    match value {
        LabelValue::Text(s) => s,
        LabelValue::Json(s) => s,
    }
}

/// The labels of a simplified entry with their values as text.
pub open spec fn label_strings(labels: Seq<(String, LabelValue)>) -> Seq<(String, String)> {
    labels.map_values(|pair: (String, LabelValue)| (pair.0, label_value_string(pair.1)))
}

fn stringify_labels(labels: Vec<(String, LabelValue)>) -> (pairs: Vec<(String, String)>)
    ensures
        pairs@ == label_strings(labels@),
{
    let ghost all = labels@;
    let mut rest = labels;
    let mut pairs: Vec<(String, String)> = Vec::new();
    let ghost mut done: int = 0;
    assert(all.skip(0) =~= all);
    while rest.len() > 0
        invariant
            0 <= done <= all.len(),
            rest@ == all.skip(done),
            pairs@ =~= label_strings(all.take(done)),
        decreases rest.len(),
    {
        let (key, value) = rest.remove(0);
        assert((key, value) == all[done]);
        let text = match value {
            LabelValue::Text(s) => s,
            LabelValue::Json(s) => s,
        };
        pairs.push((key, text));
        assert(all.skip(done).drop_first() =~= all.skip(done + 1));
        assert(all.take(done + 1) =~= all.take(done).push(all[done]));
        proof {
            done = done + 1;
        }
    }
    assert(all.take(done) =~= all);
    pairs
}

/// Whether a simplified entry can be shown: its time is one that chrono
/// can hold.
pub open spec fn simplified_printable(entry: SimplifiedLogEntry) -> bool {
    spec_utc_millis(entry.time.seconds, entry.time.nanoseconds) is Some
}

/// How a simplified entry is shown, where the severity and the message are
/// written in color or not as `on_severity` and `on_message` say.
pub open spec fn simplified_text(
    entry: SimplifiedLogEntry,
    color: bool,
    emoji: bool,
    on_severity: bool,
    on_message: bool,
) -> Seq<char> {
    line_text(
        spec_utc_millis(entry.time.seconds, entry.time.nanoseconds)->0,
        severity_text(entry.severity, color, emoji, on_severity),
        message_text(entry.message@, color, on_message),
        labels_text(
            match entry.labels {
                Some(labels) => Some(sort_by_key(label_strings(labels@))),
                None => None,
            },
        ),
        sources_text(entry.source_location),
    )
}

/// Without colors, a simplified entry is shown the same way whether or not
/// the terminal would take colors.
pub proof fn lemma_plain_simplified(
    entry: SimplifiedLogEntry,
    emoji: bool,
    a: bool,
    b: bool,
    c: bool,
    d: bool,
)
    ensures
        simplified_text(entry, false, emoji, a, b) == simplified_text(entry, false, emoji, c, d),
{
}

/// Each entry is shown on a single line: neither form of it holds a line
/// feed or a carriage return, whatever its message, labels or source
/// location hold.
pub proof fn lemma_entries_shown_on_one_line(
    simplified: SimplifiedLogEntry,
    full: LogEntry,
    color: bool,
    emoji: bool,
    on_severity: bool,
    on_message: bool,
)
    ensures
        forall|i: int|
            0 <= i < simplified_text(simplified, color, emoji, on_severity, on_message).len()
                ==> #[trigger] simplified_text(simplified, color, emoji, on_severity, on_message)[i]
                != '\n' && simplified_text(simplified, color, emoji, on_severity, on_message)[i]
                != '\r',
        forall|i: int|
            0 <= i < log_entry_text(full, color, emoji, on_severity, on_message).len()
                ==> #[trigger] log_entry_text(full, color, emoji, on_severity, on_message)[i] != '\n'
                && log_entry_text(full, color, emoji, on_severity, on_message)[i] != '\r',
{
    lemma_single_line_has_no_breaks(
        "["@ + spec_utc_millis(simplified.time.seconds, simplified.time.nanoseconds)->0 + "] "@
            + severity_text(simplified.severity, color, emoji, on_severity) + ": "@ + message_text(
            simplified.message@,
            color,
            on_message,
        ) + labels_text(
            match simplified.labels {
                Some(labels) => Some(sort_by_key(label_strings(labels@))),
                None => None,
            },
        ) + sources_text(simplified.source_location),
    );
    lemma_single_line_has_no_breaks(
        "["@ + spec_rfc3339_millis(full.timestamp->0@)->0 + "] "@ + severity_text(
            match full.severity {
                Some(s) => s,
                None => models::Severity::Default,
            },
            color,
            emoji,
            on_severity,
        ) + ": "@ + message_text(payload_text(full), color, on_message) + labels_text(
            match full.labels {
                Some(pairs) => Some(sort_by_key(pairs@)),
                None => None,
            },
        ) + sources_text(full.source_location),
    );
}

impl SimplifiedLogEntry {
    /// The entry as one line: the time with millisecond precision, the
    /// severity, the message, the labels sorted by key (string values by
    /// their contents, other values by their JSON text), the source
    /// location.
    pub fn print(self, color: bool, emoji: bool) -> (line: String)
        requires
            simplified_printable(self),
        ensures
            exists|on_severity: bool, on_message: bool|
                line@ == simplified_text(self, color, emoji, on_severity, on_message),
    {
        let ghost entry = self;
        let time = match utc_millis(self.time) {
            Some(time) => time,
            None => {
                assert(false);
                String::new()
            },
        };
        let message = show_message(self.message.as_str(), color);
        let severity = Severity::new(self.severity, color, emoji).to_text();
        let labels = Labels(
            match self.labels {
                Some(labels) => Some(sort_pairs_by_key(stringify_labels(labels))),
                None => None,
            },
        ).to_text();
        let sources = Sources(self.source_location).to_text();
        let line = assemble_line(
            time.as_str(),
            severity.as_str(),
            message.as_str(),
            labels.as_str(),
            sources.as_str(),
        );
        let ghost on_severity = choose|on: bool|
            severity@ == severity_text(entry.severity, color, emoji, on);
        let ghost on_message = choose|on: bool| message@ == message_text(entry.message@, color, on);
        assert(line@ == simplified_text(entry, color, emoji, on_severity, on_message));
        line
    }

    /// Whether the entry can be shown: its time is one that chrono can hold.
    pub fn is_printable(&self) -> (printable: bool)
        ensures
            printable == simplified_printable(*self),
    {
        utc_millis(self.time).is_some()
    }

    /// The entry as one line, where it can be shown; `None` where its time
    /// is out of chrono's range.
    pub fn try_print(self, color: bool, emoji: bool) -> (line: Option<String>)
        ensures
            line is Some <==> simplified_printable(self),
            line matches Some(l) ==> exists|on_severity: bool, on_message: bool|
                l@ == simplified_text(self, color, emoji, on_severity, on_message),
    {
        if self.is_printable() {
            Some(self.print(color, emoji))
        } else {
            None
        }
    }
}

} // verus!
