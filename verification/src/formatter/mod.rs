//! Turning tracing events and span transitions into simplified structured
//! log entries.

pub mod models;

use vstd::prelude::*;

use crate::external::{
    insert_label,
    decimal_text,
    json_plain_text,
    json_text,
    known_json_text,
    label_contents,
    new_label_map,
    spec_to_uppercase,
    to_uppercase,
    LabelMap,
};
use crate::text::{same_text, spec_trim_quotes, trim_quotes};

use self::models::{
    fields_view,
    opt_text,
    FieldValue,
    FieldView,
    Severity,
    SimplifiedLogEntry,
    SourceLocation,
    UtcTime,
};

verus! {

/// The five verbosity levels of a tracing event or span.
#[derive(Clone, Copy, Debug, PartialEq, Eq, Structural)]
pub enum TraceLevel {
    Trace,
    Debug,
    Info,
    Warn,
    Error,
}

/// The severity that a tracing level is reported with.
pub open spec fn severity_of(level: TraceLevel) -> Severity {
    match level {
        TraceLevel::Trace => Severity::Default,
        TraceLevel::Debug => Severity::Debug,
        TraceLevel::Info => Severity::Info,
        TraceLevel::Warn => Severity::Warning,
        TraceLevel::Error => Severity::Error,
    }
}

/// Maps a tracing level to its structured-logging severity.
pub fn map_severity(level: TraceLevel) -> (severity: Severity)
    ensures
        severity == severity_of(level),
{
    match level {
        TraceLevel::Trace => Severity::Default,
        TraceLevel::Debug => Severity::Debug,
        TraceLevel::Info => Severity::Info,
        TraceLevel::Warn => Severity::Warning,
        TraceLevel::Error => Severity::Error,
    }
}

/// An optional text slice by its characters.
pub open spec fn opt_str(text: Option<&str>) -> Option<Seq<char>> {
    match text {
        Some(t) => Some(t@),
        None => None,
    }
}

fn owned(text: Option<&str>) -> (owned: Option<String>)
    ensures
        opt_text(owned) == opt_str(text),
{
    match text {
        Some(t) => Some(t.to_owned()),
        None => None,
    }
}

/// The source location of an entry, from what is known of where it was
/// written: none where nothing is known.
pub open spec fn location_of(
    file: Option<Seq<char>>,
    function: Option<Seq<char>>,
    line: Option<u32>,
) -> Option<(Option<Seq<char>>, Option<u32>, Option<Seq<char>>)> {
    if file is None && function is None && line is None {
        None
    } else {
        Some((file, line, function))
    }
}

/// A source location by its contents.
pub open spec fn opt_location(location: Option<SourceLocation>) -> Option<
    (Option<Seq<char>>, Option<u32>, Option<Seq<char>>),
> {
    match location {
        Some(l) => Some(l@),
        None => None,
    }
}

/// The source location of an entry: file, function (the module path) and
/// line, where any of them is known.
pub fn map_source_location(file: Option<&str>, function: Option<&str>, line: Option<u32>) -> (location:
    Option<SourceLocation>)
    ensures
        opt_location(location) == location_of(opt_str(file), opt_str(function), line),
{
    match (file, function, line) {
        (None, None, None) => None,
        _ => Some(SourceLocation { file: owned(file), function: owned(function), line }),
    }
}

/// The labels every entry starts from: the process id, and the host name
/// where it is known.
pub open spec fn base_labels(pid: u32, hostname: Option<Seq<char>>) -> Map<Seq<char>, FieldView> {
    let with_pid = Map::<Seq<char>, FieldView>::empty().insert("pid"@, FieldView::U64(pid as u64));
    match hostname {
        Some(h) => with_pid.insert("hostname"@, FieldView::Str(h)),
        None => with_pid,
    }
}

/// Labels after the given fields are added in order: a later field
/// replaces an earlier label of the same name.
pub open spec fn with_fields(
    labels: Map<Seq<char>, FieldView>,
    fields: Seq<(Seq<char>, FieldView)>,
) -> Map<Seq<char>, FieldView>
    decreases fields.len(),
{
    if fields.len() == 0 {
        labels
    } else {
        with_fields(labels, fields.drop_last()).insert(fields.last().0, fields.last().1)
    }
}

/// Labels as an entry holds them: each value by its JSON text.
pub open spec fn label_texts(labels: Map<Seq<char>, FieldView>) -> Map<Seq<char>, Seq<char>> {
    labels.map_values(|value: FieldView| json_text(value))
}

/// The labels of an entry: `pid`, then `hostname` where it is known, then
/// the fields in order, each replacing a label of the same name.
pub fn map_labels(labels: Vec<(String, FieldValue)>, pid: u32, hostname: Option<&str>) -> (output:
    Option<LabelMap>)
    ensures
        output is Some,
        label_contents(output->0) == label_texts(
            with_fields(base_labels(pid, opt_str(hostname)), fields_view(labels@)),
        ),
        forall|i: int|
            0 <= i < labels@.len() && (forall|j: int|
                i < j < labels@.len() ==> labels@[j].0@ != labels@[i].0@) && known_json_text(
                labels@[i].1@,
            ) is Some ==> label_contents(output->0)[(#[trigger] labels@[i]).0@] == known_json_text(
                labels@[i].1@,
            )->0,
        (forall|i: int| 0 <= i < labels@.len() ==> labels@[i].0@ != "pid"@) ==> label_contents(
            output->0,
        )["pid"@] == decimal_text(pid as int),
        hostname is Some && json_plain_text(hostname->0@) && (forall|i: int|
            0 <= i < labels@.len() ==> labels@[i].0@ != "hostname"@) ==> label_contents(
            output->0,
        )["hostname"@] == seq!['"'] + hostname->0@ + seq!['"'],
{
    let mut output = new_label_map();
    insert_label(&mut output, "pid".to_owned(), FieldValue::U64(pid as u64));
    assert(json_text(FieldView::U64(pid as u64)) == decimal_text(pid as int));
    match hostname {
        Some(h) => {
            insert_label(&mut output, "hostname".to_owned(), FieldValue::Str(h.to_owned()));
            assert(json_plain_text(h@) ==> json_text(FieldView::Str(h@)) == seq!['"'] + h@ + seq![
                '"',
            ]);
        },
        None => {},
    }
    assert(label_contents(output) =~= label_texts(base_labels(pid, opt_str(hostname))));
    let ghost all = labels@;
    let ghost base = base_labels(pid, opt_str(hostname));
    let mut rest = labels;
    let ghost mut done: int = 0;
    assert(all.skip(0) =~= all);
    assert(fields_view(all.take(0)) =~= Seq::<(Seq<char>, FieldView)>::empty());
    while rest.len() > 0
        invariant
            0 <= done <= all.len(),
            rest@ == all.skip(done),
            label_contents(output) == label_texts(with_fields(base, fields_view(all.take(done)))),
            json_text(FieldView::U64(pid as u64)) == decimal_text(pid as int),
            hostname is Some && json_plain_text(hostname->0@) ==> json_text(
                FieldView::Str(hostname->0@),
            ) == seq!['"'] + hostname->0@ + seq!['"'],
            forall|k: int|
                0 <= k < done && known_json_text(all[k].1@) is Some ==> json_text(
                    (#[trigger] all[k]).1@,
                ) == known_json_text(all[k].1@)->0,
        decreases rest.len(),
    {
        let (key, value) = rest.remove(0);
        assert((key, value) == all[done]);
        let ghost key_text = key@;
        let ghost value_view = value@;
        insert_label(&mut output, key, value);
        assert(label_contents(output)[key_text] == json_text(value_view));
        assert(all.skip(done).drop_first() =~= all.skip(done + 1));
        assert(fields_view(all.take(done + 1)).drop_last() =~= fields_view(all.take(done)));
        assert(fields_view(all.take(done + 1)).last() == (all[done].0@, all[done].1@));
        assert(label_contents(output) =~= label_texts(
            with_fields(base, fields_view(all.take(done + 1))),
        ));
        proof {
            done = done + 1;
        }
    }
    assert(all.take(done) =~= all);
    proof {
        lemma_known_field_texts(pid, opt_str(hostname), all);
        lemma_known_pid_text(pid, opt_str(hostname), all);
        lemma_known_hostname_text(pid, opt_str(hostname), all);
    }
    Some(output)
}

/// A label that no field names keeps its value.
proof fn lemma_with_fields_keeps(
    labels: Map<Seq<char>, FieldView>,
    fields: Seq<(Seq<char>, FieldView)>,
    key: Seq<char>,
)
    requires
        forall|i: int| 0 <= i < fields.len() ==> fields[i].0 != key,
    ensures
        with_fields(labels, fields).dom().contains(key) == labels.dom().contains(key),
        labels.dom().contains(key) ==> with_fields(labels, fields)[key] == labels[key],
    decreases fields.len(),
{
    if fields.len() > 0 {
        assert(fields.last() == fields[fields.len() - 1]);
        assert forall|i: int| 0 <= i < fields.drop_last().len() implies fields.drop_last()[i].0
            != key by {
            assert(fields.drop_last()[i] == fields[i]);
        }
        lemma_with_fields_keeps(labels, fields.drop_last(), key);
    }
}

/// Where the JSON text of a field's value is known, the label of the last
/// field of that name holds it.
proof fn lemma_known_field_texts(
    pid: u32,
    hostname: Option<Seq<char>>,
    all: Seq<(String, FieldValue)>,
)
    requires
        forall|k: int|
            0 <= k < all.len() && known_json_text(all[k].1@) is Some ==> json_text(
                (#[trigger] all[k]).1@,
            ) == known_json_text(all[k].1@)->0,
    ensures
        forall|i: int|
            0 <= i < all.len() && (forall|j: int| i < j < all.len() ==> all[j].0@ != all[i].0@)
                && known_json_text(all[i].1@) is Some ==> label_texts(
                with_fields(base_labels(pid, hostname), fields_view(all)),
            )[(#[trigger] all[i]).0@] == known_json_text(all[i].1@)->0,
{
    let fields = fields_view(all);
    let labels = with_fields(base_labels(pid, hostname), fields);
    lemma_label_texts_hold_fields(pid, hostname, fields);
    assert forall|i: int|
        0 <= i < all.len() && (forall|j: int| i < j < all.len() ==> all[j].0@ != all[i].0@)
            && known_json_text(all[i].1@) is Some implies label_texts(labels)[(
        #[trigger] all[i]).0@] == known_json_text(all[i].1@)->0 by {
        assert(fields[i] == (all[i].0@, all[i].1@));
        assert forall|j: int| i < j < fields.len() implies fields[j].0 != fields[i].0 by {
            assert(fields[j] == (all[j].0@, all[j].1@));
        }
        assert(label_texts(labels)[fields[i].0] == json_text(fields[i].1));
    }
}

/// Unless a field replaces it, the `pid` label holds the process id in
/// decimal.
proof fn lemma_known_pid_text(pid: u32, hostname: Option<Seq<char>>, all: Seq<(String, FieldValue)>)
    requires
        json_text(FieldView::U64(pid as u64)) == decimal_text(pid as int),
    ensures
        (forall|i: int| 0 <= i < all.len() ==> all[i].0@ != "pid"@) ==> label_texts(
            with_fields(base_labels(pid, hostname), fields_view(all)),
        )["pid"@] == decimal_text(pid as int),
{
    let fields = fields_view(all);
    if forall|i: int| 0 <= i < all.len() ==> all[i].0@ != "pid"@ {
        assert forall|i: int| 0 <= i < fields.len() implies fields[i].0 != "pid"@ by {
            assert(fields[i] == (all[i].0@, all[i].1@));
        }
        lemma_label_texts_hold_fields(pid, hostname, fields);
    }
}

/// Unless a field replaces it, the `hostname` label holds the host name
/// between double quotes, where it needs no escapes.
proof fn lemma_known_hostname_text(
    pid: u32,
    hostname: Option<Seq<char>>,
    all: Seq<(String, FieldValue)>,
)
    requires
        hostname is Some && json_plain_text(hostname->0) ==> json_text(FieldView::Str(hostname->0))
            == seq!['"'] + hostname->0 + seq!['"'],
    ensures
        hostname is Some && json_plain_text(hostname->0) && (forall|i: int|
            0 <= i < all.len() ==> all[i].0@ != "hostname"@) ==> label_texts(
            with_fields(base_labels(pid, hostname), fields_view(all)),
        )["hostname"@] == seq!['"'] + hostname->0 + seq!['"'],
{
    let fields = fields_view(all);
    if hostname is Some && json_plain_text(hostname->0) && (forall|i: int|
        0 <= i < all.len() ==> all[i].0@ != "hostname"@) {
        assert forall|i: int| 0 <= i < fields.len() implies fields[i].0 != "hostname"@ by {
            assert(fields[i] == (all[i].0@, all[i].1@));
        }
        reveal_strlit("pid");
        reveal_strlit("hostname");
        assert("pid"@ != "hostname"@) by {
            assert("pid"@.len() != "hostname"@.len());
        }
        let base = base_labels(pid, hostname);
        assert(base.dom().contains("hostname"@));
        assert(base["hostname"@] == FieldView::Str(hostname->0));
        lemma_with_fields_keeps(base, fields, "hostname"@);
    }
}

/// Every entry's labels hold `pid`, `hostname` where the host name is known,
/// and a label for each field; `pid` is the process id unless a field of that
/// name replaced it, and each label holds the value of the last field of its
/// name.
pub proof fn lemma_labels_hold_pid_and_fields(
    pid: u32,
    hostname: Option<Seq<char>>,
    fields: Seq<(Seq<char>, FieldView)>,
)
    ensures
        with_fields(base_labels(pid, hostname), fields).dom().contains("pid"@),
        hostname is Some ==> with_fields(base_labels(pid, hostname), fields).dom().contains(
            "hostname"@,
        ),
        forall|i: int|
            0 <= i < fields.len() ==> with_fields(base_labels(pid, hostname), fields).dom().contains(
                #[trigger] fields[i].0,
            ),
        forall|i: int|
            0 <= i < fields.len() && (forall|j: int| i < j < fields.len() ==> fields[j].0 != fields[i].0)
                ==> with_fields(base_labels(pid, hostname), fields)[#[trigger] fields[i].0]
                == fields[i].1,
        (forall|i: int| 0 <= i < fields.len() ==> fields[i].0 != "pid"@) ==> with_fields(
            base_labels(pid, hostname),
            fields,
        )["pid"@] == FieldView::U64(pid as u64),
    decreases fields.len(),
{
    reveal_strlit("pid");
    reveal_strlit("hostname");
    assert("pid"@ != "hostname"@) by {
        assert("pid"@.len() != "hostname"@.len());
    }
    if fields.len() > 0 {
        let rest = fields.drop_last();
        lemma_labels_hold_pid_and_fields(pid, hostname, rest);
        assert forall|i: int| 0 <= i < fields.len() implies with_fields(
            base_labels(pid, hostname),
            fields,
        ).dom().contains(#[trigger] fields[i].0) by {
            if i < fields.len() - 1 {
                assert(fields[i] == rest[i]);
            }
        }
        assert forall|i: int|
            0 <= i < fields.len() && (forall|j: int| i < j < fields.len() ==> fields[j].0 != fields[i].0)
                implies with_fields(base_labels(pid, hostname), fields)[#[trigger] fields[i].0]
            == fields[i].1 by {
            if i < fields.len() - 1 {
                assert(fields[i] == rest[i]);
                assert(fields.last().0 != fields[i].0);
                assert forall|j: int| i < j < rest.len() implies rest[j].0 != rest[i].0 by {
                    assert(rest[j] == fields[j]);
                }
            }
        }
        if forall|i: int| 0 <= i < fields.len() ==> fields[i].0 != "pid"@ {
            assert forall|i: int| 0 <= i < rest.len() implies rest[i].0 != "pid"@ by {
                assert(rest[i] == fields[i]);
            }
            assert(fields[fields.len() - 1].0 != "pid"@);
        }
    }
}

/// The message and the other fields recorded on an event or a span.
#[derive(Debug)]
pub struct EventVisitor {
    pub message: Option<String>,
    pub other_fields: Vec<(String, FieldValue)>,
}

/// One recorded field is added: the message and the earlier fields stay.
pub open spec fn recorded(
    before: EventVisitor,
    after: EventVisitor,
    name: Seq<char>,
    value: FieldView,
) -> bool {
    &&& opt_text(after.message) == opt_text(before.message)
    &&& fields_view(after.other_fields@) == fields_view(before.other_fields@).push((name, value))
}

impl EventVisitor {
    /// A visitor that has recorded nothing.
    pub fn new() -> (visitor: Self)
        ensures
            visitor.message is None,
            visitor.other_fields@.len() == 0,
    {
        EventVisitor { message: None, other_fields: Vec::new() }
    }

    fn record(&mut self, name: &str, value: FieldValue)
        ensures
            recorded(*old(self), *final(self), name@, value@),
    {
        let ghost before = self.other_fields@;
        self.other_fields.push((name.to_owned(), value));
        assert(fields_view(self.other_fields@) =~= fields_view(before).push((name@, value@)));
    }

    /// Records a signed integer field.
    pub fn record_i64(&mut self, name: &str, value: i64)
        ensures
            recorded(*old(self), *final(self), name@, FieldView::I64(value)),
    {
        self.record(name, FieldValue::I64(value));
    }

    /// Records a floating-point field, given by the JSON value it becomes.
    pub fn record_f64(&mut self, name: &str, value: serde_json::Value)
        ensures
            recorded(*old(self), *final(self), name@, FieldView::Json(value)),
    {
        self.record(name, FieldValue::Json(value));
    }

    /// Records an unsigned integer field.
    pub fn record_u64(&mut self, name: &str, value: u64)
        ensures
            recorded(*old(self), *final(self), name@, FieldView::U64(value)),
    {
        self.record(name, FieldValue::U64(value));
    }

    /// Records a text field, without the double quotes at either end.
    pub fn record_str(&mut self, name: &str, value: &str)
        ensures
            recorded(*old(self), *final(self), name@, FieldView::Str(spec_trim_quotes(value@))),
    {
        let trimmed = trim_quotes(value);
        self.record(name, FieldValue::Str(trimmed));
    }

    /// Records a boolean field.
    pub fn record_bool(&mut self, name: &str, value: bool)
        ensures
            recorded(*old(self), *final(self), name@, FieldView::Bool(value)),
    {
        self.record(name, FieldValue::Bool(value));
    }

    /// Records a field of bytes.
    pub fn record_bytes(&mut self, name: &str, value: Vec<u8>)
        ensures
            recorded(*old(self), *final(self), name@, FieldView::Bytes(value@)),
    {
        self.record(name, FieldValue::Bytes(value));
    }

    /// Records a field given by its `Debug` form: the field named `message`
    /// becomes the message, any other field a text field.
    pub fn record_debug(&mut self, name: &str, rendered: String)
        ensures
            name@ == "message"@ ==> opt_text(final(self).message) == Some(rendered@) && fields_view(
                final(self).other_fields@,
            ) == fields_view(old(self).other_fields@),
            name@ != "message"@ ==> recorded(*old(self), *final(self), name@, FieldView::Str(rendered@)),
    {
        if same_text(name, "message") {
            self.message = Some(rendered);
        } else {
            self.record(name, FieldValue::Str(rendered));
        }
    }
}

/// The fields of a span, kept for the entries written inside it.
#[derive(Debug)]
pub struct SpanFields {
    pub fields: Vec<(String, FieldValue)>,
}

impl SpanFields {
    /// The fields that a visitor recorded on a span (its message, if any,
    /// is not kept).
    pub fn from_visitor(visitor: EventVisitor) -> (span_fields: Self)
        ensures
            fields_view(span_fields.fields@) == fields_view(visitor.other_fields@),
    {
        SpanFields { fields: visitor.other_fields }
    }
}

/// The fields of a chain of spans, the innermost span's first.
pub open spec fn chain_fields(chain: Seq<SpanFields>) -> Seq<(Seq<char>, FieldView)>
    decreases chain.len(),
{
    if chain.len() == 0 {
        seq![]
    } else {
        chain_fields(chain.drop_last()) + fields_view(chain.last().fields@)
    }
}

fn gather_fields(first: Vec<(String, FieldValue)>, chain: Vec<SpanFields>) -> (all: Vec<
    (String, FieldValue),
>)
    ensures
        fields_view(all@) == fields_view(first@) + chain_fields(chain@),
{
    let ghost spans = chain@;
    let mut all = first;
    let mut rest = chain;
    let ghost mut done: int = 0;
    assert(spans.skip(0) =~= spans);
    assert(fields_view(all@) =~= fields_view(first@) + chain_fields(spans.take(0)));
    while rest.len() > 0
        invariant
            0 <= done <= spans.len(),
            rest@ == spans.skip(done),
            fields_view(all@) == fields_view(first@) + chain_fields(spans.take(done)),
        decreases rest.len(),
    {
        let mut span = rest.remove(0);
        assert(span == spans[done]);
        let ghost before = all@;
        all.append(&mut span.fields);
        assert(fields_view(all@) =~= fields_view(before) + fields_view(spans[done].fields@));
        assert(spans.take(done + 1).drop_last() =~= spans.take(done));
        assert(spans.skip(done).drop_first() =~= spans.skip(done + 1));
        proof {
            done = done + 1;
        }
    }
    assert(spans.take(done) =~= spans);
    all
}

/// Each field of each span of a chain is among the chain's fields.
proof fn lemma_chain_fields_hold(chain: Seq<SpanFields>, span: int, field: int)
    requires
        0 <= span < chain.len(),
        0 <= field < chain[span].fields@.len(),
    ensures
        exists|k: int|
            0 <= k < chain_fields(chain).len() && (#[trigger] chain_fields(chain)[k]).0
                == chain[span].fields@[field].0@,
    decreases chain.len(),
{
    let rest = chain.drop_last();
    let before = chain_fields(rest);
    let last = fields_view(chain.last().fields@);
    assert(chain_fields(chain) == before + last);
    if span == chain.len() - 1 {
        let k = before.len() + field;
        assert(chain_fields(chain)[k] == last[field]);
    } else {
        assert(chain[span] == rest[span]);
        lemma_chain_fields_hold(rest, span, field);
        let k = choose|k: int|
            0 <= k < before.len() && (#[trigger] before[k]).0 == rest[span].fields@[field].0@;
        assert(chain_fields(chain)[k] == before[k]);
    }
}

/// As an entry holds them, the labels have the same keys as the labels made
/// of `pid`, `hostname` and the fields; the label of the last field of each
/// name holds the JSON text of that field's value, and `pid`, unless a field
/// of that name replaced it, holds the JSON text of the process id.
pub proof fn lemma_label_texts_hold_fields(
    pid: u32,
    hostname: Option<Seq<char>>,
    fields: Seq<(Seq<char>, FieldView)>,
)
    ensures
        label_texts(with_fields(base_labels(pid, hostname), fields)).dom() == with_fields(
            base_labels(pid, hostname),
            fields,
        ).dom(),
        forall|i: int|
            0 <= i < fields.len() && (forall|j: int| i < j < fields.len() ==> fields[j].0 != fields[i].0)
                ==> label_texts(with_fields(base_labels(pid, hostname), fields))[#[trigger] fields[i].0]
                == json_text(fields[i].1),
        (forall|i: int| 0 <= i < fields.len() ==> fields[i].0 != "pid"@) ==> label_texts(
            with_fields(base_labels(pid, hostname), fields),
        )["pid"@] == json_text(FieldView::U64(pid as u64)),
{
    lemma_labels_hold_pid_and_fields(pid, hostname, fields);
    let labels = with_fields(base_labels(pid, hostname), fields);
    assert(label_texts(labels).dom() =~= labels.dom());
    assert forall|i: int|
        0 <= i < fields.len() && (forall|j: int| i < j < fields.len() ==> fields[j].0 != fields[i].0)
            implies label_texts(labels)[#[trigger] fields[i].0] == json_text(fields[i].1) by {
        assert(labels.dom().contains(fields[i].0));
    }
}

/// The labels of an event's entry hold every field of the event and every
/// field of each span around it, as well as `pid` (and `hostname` where
/// the host name is known).
pub proof fn lemma_event_labels_hold_span_fields(
    entry: SimplifiedLogEntry,
    meta: EventMeta,
    pid: u32,
    hostname: Option<Seq<char>>,
    event_fields: Seq<(String, FieldValue)>,
    chain: Seq<SpanFields>,
    time: UtcTime,
)
    requires
        entry_of(entry, meta, pid, hostname, fields_view(event_fields) + chain_fields(chain), time),
    ensures
        label_contents(entry.labels->0).dom().contains("pid"@),
        hostname is Some ==> label_contents(entry.labels->0).dom().contains("hostname"@),
        forall|i: int|
            0 <= i < event_fields.len() ==> label_contents(entry.labels->0).dom().contains(
                #[trigger] event_fields[i].0@,
            ),
        forall|span: int, field: int|
            0 <= span < chain.len() && 0 <= field < chain[span].fields@.len()
                ==> label_contents(entry.labels->0).dom().contains(
                #[trigger] chain[span].fields@[field].0@,
            ),
{
    let fields = fields_view(event_fields) + chain_fields(chain);
    lemma_labels_hold_pid_and_fields(pid, hostname, fields);
    assert forall|i: int| 0 <= i < event_fields.len() implies label_contents(
        entry.labels->0,
    ).dom().contains(#[trigger] event_fields[i].0@) by {
        assert(fields[i].0 == event_fields[i].0@);
    }
    assert forall|span: int, field: int|
        0 <= span < chain.len() && 0 <= field < chain[span].fields@.len() implies label_contents(
        entry.labels->0,
    ).dom().contains(#[trigger] chain[span].fields@[field].0@) by {
        lemma_chain_fields_hold(chain, span, field);
        let k = choose|k: int|
            0 <= k < chain_fields(chain).len() && (#[trigger] chain_fields(chain)[k]).0
                == chain[span].fields@[field].0@;
        assert(fields[event_fields.len() + k] == chain_fields(chain)[k]);
    }
}

/// The layer that keeps the fields of each span for the formatting layer; it
/// holds no state of its own.
#[derive(Debug)]
pub struct SpanDataLayer {}

impl SpanDataLayer {
    /// Creates a new `SpanDataLayer`.
    pub fn new() -> Self {
        Self {}
    }
}

impl Default for SpanDataLayer {
    fn default() -> Self {
        Self::new()
    }
}

/// What an entry reads of the metadata of an event or a span.
#[derive(Debug)]
pub struct EventMeta {
    pub level: TraceLevel,
    pub name: String,
    pub file: Option<String>,
    pub module: Option<String>,
    pub line: Option<u32>,
}

/// The message of an event: prefixed with the upper-case name of the span it
/// was written in, if any, and `[EVENT]` where it has neither message nor
/// span.
pub open spec fn event_message(message: Option<Seq<char>>, span: Option<Seq<char>>) -> Seq<char> {
    match (message, span) {
        (Some(m), Some(s)) => "["@ + spec_to_uppercase(s) + " - EVENT] "@ + m,
        (None, Some(s)) => "["@ + spec_to_uppercase(s) + " - EVENT]"@,
        (Some(m), None) => m,
        (None, None) => "[EVENT]"@,
    }
}

/// The message written when a span opens.
pub open spec fn start_message(span: Seq<char>) -> Seq<char> {
    "["@ + spec_to_uppercase(span) + " - START]"@
}

/// The message written when a span closes.
pub open spec fn end_message(span: Seq<char>) -> Seq<char> {
    "["@ + spec_to_uppercase(span) + " - END]"@
}

/// The parts of an entry that every entry of an event or span has alike:
/// the severity of its level, the time, its source location, the labels
/// made of `pid`, `hostname` and the given fields, and no HTTP request,
/// operation or span id.
pub open spec fn entry_of(
    entry: SimplifiedLogEntry,
    meta: EventMeta,
    pid: u32,
    hostname: Option<Seq<char>>,
    fields: Seq<(Seq<char>, FieldView)>,
    time: UtcTime,
) -> bool {
    &&& entry.severity == severity_of(meta.level)
    &&& entry.time == time
    &&& entry.labels is Some
    &&& label_contents(entry.labels->0) == label_texts(with_fields(base_labels(pid, hostname), fields))
    &&& opt_location(entry.source_location) == location_of(
        opt_text(meta.file),
        opt_text(meta.module),
        meta.line,
    )
    &&& entry.http_request is None
    &&& entry.operation is None
    &&& entry.span_id is None
}

/// What the formatting layer knows of the process: its id and, where it is
/// known, the name of its host.
#[derive(Debug)]
pub struct Formatter {
    pub pid: u32,
    pub hostname: Option<String>,
}

impl Formatter {
    pub fn new(pid: u32, hostname: Option<String>) -> (formatter: Self)
        ensures
            formatter.pid == pid,
            formatter.hostname == hostname,
    {
        Formatter { pid, hostname }
    }

    fn hostname_str(&self) -> (hostname: Option<&str>)
        ensures
            opt_str(hostname) == opt_text(self.hostname),
    {
        match &self.hostname {
            Some(h) => Some(h.as_str()),
            None => None,
        }
    }

    fn entry(&self, meta: &EventMeta, message: String, fields: Vec<(String, FieldValue)>, time: UtcTime) -> (entry:
        SimplifiedLogEntry)
        ensures
            entry.message == message,
            entry_of(entry, *meta, self.pid, opt_text(self.hostname), fields_view(fields@), time),
    {
        let file = match &meta.file {
            Some(f) => Some(f.as_str()),
            None => None,
        };
        let function = match &meta.module {
            Some(f) => Some(f.as_str()),
            None => None,
        };
        SimplifiedLogEntry {
            severity: map_severity(meta.level),
            time,
            message,
            labels: map_labels(fields, self.pid, self.hostname_str()),
            source_location: map_source_location(file, function, meta.line),
            http_request: None,
            operation: None,
            span_id: None,
        }
    }

    /// The entry for an event.  `current_span` is the name of the span the
    /// event was written in, if any; `chain` holds the fields of the event's
    /// span and of each of its ancestors, innermost first.  The labels hold
    /// the event's fields, then those of the spans in that order.
    pub fn event_entry(
        &self,
        meta: &EventMeta,
        visitor: EventVisitor,
        current_span: Option<&str>,
        chain: Vec<SpanFields>,
        time: UtcTime,
    ) -> (entry: SimplifiedLogEntry)
        ensures
            entry.message@ == event_message(opt_text(visitor.message), opt_str(current_span)),
            entry_of(
                entry,
                *meta,
                self.pid,
                opt_text(self.hostname),
                fields_view(visitor.other_fields@) + chain_fields(chain@),
                time,
            ),
    {
        let message = match (visitor.message, current_span) {
            (Some(message), Some(span)) => {
                let mut text = "[".to_owned();
                text.append(to_uppercase(span).as_str());
                text.append(" - EVENT] ");
                text.append(message.as_str());
                text
            },
            (None, Some(span)) => {
                let mut text = "[".to_owned();
                text.append(to_uppercase(span).as_str());
                text.append(" - EVENT]");
                text
            },
            (Some(message), None) => message,
            (None, None) => "[EVENT]".to_owned(),
        };
        let fields = gather_fields(visitor.other_fields, chain);
        self.entry(meta, message, fields, time)
    }

    /// The entry written when a span opens; its labels hold the fields
    /// recorded on the span.
    pub fn span_start_entry(&self, meta: &EventMeta, visitor: EventVisitor, time: UtcTime) -> (entry:
        SimplifiedLogEntry)
        ensures
            entry.message@ == start_message(meta.name@),
            entry_of(entry, *meta, self.pid, opt_text(self.hostname), fields_view(visitor.other_fields@), time),
    {
        let mut message = "[".to_owned();
        message.append(to_uppercase(meta.name.as_str()).as_str());
        message.append(" - START]");
        self.entry(meta, message, visitor.other_fields, time)
    }

    /// The entry written when a span closes.  `chain` holds the fields of
    /// the span and of each of its ancestors, innermost first; the labels
    /// hold them in that order.
    pub fn span_end_entry(&self, meta: &EventMeta, chain: Vec<SpanFields>, time: UtcTime) -> (entry:
        SimplifiedLogEntry)
        ensures
            entry.message@ == end_message(meta.name@),
            entry_of(entry, *meta, self.pid, opt_text(self.hostname), chain_fields(chain@), time),
    {
        let mut message = "[".to_owned();
        message.append(to_uppercase(meta.name.as_str()).as_str());
        message.append(" - END]");
        let fields = gather_fields(Vec::new(), chain);
        self.entry(meta, message, fields, time)
    }
}

} // verus!
