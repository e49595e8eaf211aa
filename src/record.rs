use vstd::prelude::*;
use crate::context::{format_span_context, label_of, upper_of, Type};
use crate::json::{
    bool_text, decimal, encode_bool, encode_i64, encode_str, encode_u64, int_text,
    lemma_bool_text_single_line, lemma_decimal_single_line, lemma_int_text_single_line,
    lemma_quoted_single_line, lemma_single_line_concat, quoted, single_line,
};
use crate::level::{level_code, to_bunyan_level, Level};
use crate::message::{event_message, format_event_message, is_message_key, message_key, Field, FieldValue};

verus! {

/// Why a record could not be emitted. Neither is fatal: the record is dropped.
#[derive(Clone, Copy, Debug, PartialEq, Eq, Structural)]
pub enum EmitError {
    /// The record could not be encoded as JSON.
    Serialization,
    /// The sink rejected the write or could not complete it.
    Write,
}

/// A span as the formatter sees it: its name, its severity and the fields
/// stored for it, in storage order.
pub struct Span {
    pub name: String,
    pub level: Level,
    pub fields: Vec<Field>,
}

/// An event as the formatter sees it: its target, its severity and its own
/// fields, in the order they were recorded.
pub struct Event {
    pub target: String,
    pub level: Level,
    pub fields: Vec<Field>,
}

/// Formats spans and events in the Bunyan format. The identity fields are
/// fixed at construction and read-only afterwards.
pub struct BunyanFormattingLayer {
    name: String,
    hostname: String,
    pid: u32,
    bunyan_version: u8,
}

/// One record, as the ordered members of a JSON object: each entry is the
/// JSON text `"key":value`.
pub struct LogRecord {
    pub entries: Vec<String>,
}

/// The JSON object member `"key":value`, for `value` already in JSON text.
pub open spec fn entry(key: Seq<char>, value: Seq<char>) -> Seq<char> {
    quoted(key) + ":"@ + value
}

/// The entries joined by commas.
pub open spec fn joined(es: Seq<Seq<char>>) -> Seq<char>
    decreases es.len(),
{
    if es.len() == 0 {
        Seq::empty()
    } else if es.len() == 1 {
        es[0]
    } else {
        joined(es.drop_last()) + ","@ + es.last()
    }
}

/// The emitted line: one JSON object holding the entries, then a line feed.
pub open spec fn record_line(es: Seq<Seq<char>>) -> Seq<char> {
    "{"@ + joined(es) + "}"@ + "\n"@
}

/// A field value as JSON text: a string, a number or a boolean.
pub open spec fn value_text(v: FieldValue) -> Seq<char> {
    match v {
        FieldValue::Str(s) => quoted(s@),
        FieldValue::Int(n) => int_text(n as int),
        FieldValue::UInt(n) => decimal(n as nat),
        FieldValue::Bool(b) => bool_text(b),
    }
}

/// The member for one contextual field.
pub open spec fn field_entry(f: Field) -> Seq<char> {
    entry(f.key@, value_text(f.value))
}

/// The members for `fields`, one each, in order.
pub open spec fn field_entries(fields: Seq<Field>) -> Seq<Seq<char>> {
    fields.map_values(|f: Field| field_entry(f))
}

/// The fields without those keyed `message`, in their order.
pub open spec fn without_message(fields: Seq<Field>) -> Seq<Field>
    decreases fields.len(),
{
    if fields.len() == 0 {
        Seq::empty()
    } else if fields.last().key@ == message_key() {
        without_message(fields.drop_last())
    } else {
        without_message(fields.drop_last()).push(fields.last())
    }
}

impl BunyanFormattingLayer {
    /// The logger's name.
    pub closed spec fn name_view(&self) -> Seq<char> {
        self.name@
    }

    /// The host name, read at construction.
    pub closed spec fn hostname_view(&self) -> Seq<char> {
        self.hostname@
    }

    /// The process id.
    pub closed spec fn pid_view(&self) -> u32 {
        self.pid
    }

    /// The version of the Bunyan format.
    pub closed spec fn version_view(&self) -> u8 {
        self.bunyan_version
    }
}

/// The seven core fields, in their fixed order.
pub open spec fn core_fields(
    layer: BunyanFormattingLayer,
    msg: Seq<char>,
    level: u16,
    time: Seq<char>,
) -> Seq<Seq<char>> {
    seq![
        entry("v"@, decimal(layer.version_view() as nat)),
        entry("name"@, quoted(layer.name_view())),
        entry("msg"@, quoted(msg)),
        entry("level"@, decimal(level as nat)),
        entry("hostname"@, quoted(layer.hostname_view())),
        entry("pid"@, decimal(layer.pid_view() as nat)),
        entry("time"@, quoted(time)),
    ]
}

/// `es` is the record of the core fields followed by the members for `fields`.
pub open spec fn is_record(
    es: Seq<Seq<char>>,
    layer: BunyanFormattingLayer,
    msg: Seq<char>,
    level: u16,
    time: Seq<char>,
    fields: Seq<Field>,
) -> bool {
    es == core_fields(layer, msg, level, time) + field_entries(fields)
}

/// The fields that follow the core fields in an event's record: the event's
/// own fields but `message`, then those of the current span.
pub open spec fn event_context(event: Event, current_span: Option<&Span>) -> Seq<Field> {
    without_message(event.fields@) + match current_span {
        Some(s) => s.fields@,
        None => Seq::empty(),
    }
}

/// The message of an event's record.
pub open spec fn event_record_message(event: Event, current_span: Option<&Span>) -> Seq<char> {
    event_message(
        match current_span {
            Some(s) => Some(label_of(upper_of(s.name@), Type::Event)),
            None => None,
        },
        event.fields@,
        event.target@,
    )
}

/// Relies on gethostname::gethostname, read lossily as UTF-8: the machine's
/// host name, of which nothing is known in advance.
#[verifier::external_body]
fn host_name() -> (r: String) {
    gethostname::gethostname().to_string_lossy().into_owned()
}

/// Relies on chrono::Utc::now and DateTime::to_rfc3339: the current instant
/// as RFC 3339 text, which changes from call to call.
#[verifier::external_body]
fn now_rfc3339() -> (r: String) {
    chrono::Utc::now().to_rfc3339()
}

/// The member `"key":value`, for `value` already in JSON text.
pub fn render_entry(key: &str, value: &str) -> (r: Result<String, EmitError>)
    ensures
        r is Ok,
        r matches Ok(t) ==> t@ == entry(key@, value@),
{
    let mut t = match encode_str(key) {
        Ok(q) => q,
        Err(_) => return Err(EmitError::Serialization),
    };
    t.append(":");
    t.append(value);
    Ok(t)
}

/// Encode a field value as JSON text.
pub fn render_value(v: &FieldValue) -> (r: Result<String, EmitError>)
    ensures
        r is Ok,
        r matches Ok(t) ==> t@ == value_text(*v),
{
    let e = match v {
        FieldValue::Str(s) => encode_str(s.as_str()),
        FieldValue::Int(n) => encode_i64(*n),
        FieldValue::UInt(n) => encode_u64(*n),
        FieldValue::Bool(b) => encode_bool(*b),
    };
    match e {
        Ok(t) => Ok(t),
        Err(_) => Err(EmitError::Serialization),
    }
}

/// The member for one contextual field.
pub fn render_field(f: &Field) -> (r: Result<String, EmitError>)
    ensures
        r is Ok,
        r matches Ok(t) ==> t@ == field_entry(*f),
{
    let v = render_value(&f.value)?;
    render_entry(f.key.as_str(), v.as_str())
}

/// The member `"key":"text"`.
fn str_entry(key: &str, text: &str) -> (r: Result<String, EmitError>)
    ensures
        r is Ok,
        r matches Ok(t) ==> t@ == entry(key@, quoted(text@)),
{
    match encode_str(text) {
        Ok(q) => render_entry(key, q.as_str()),
        Err(_) => Err(EmitError::Serialization),
    }
}

/// The member `"key":n`.
fn int_entry(key: &str, n: u64) -> (r: Result<String, EmitError>)
    ensures
        r is Ok,
        r matches Ok(t) ==> t@ == entry(key@, decimal(n as nat)),
{
    match encode_u64(n) {
        Ok(d) => render_entry(key, d.as_str()),
        Err(_) => Err(EmitError::Serialization),
    }
}

/// Append to `out` the members for `fields`, leaving out those keyed
/// `message` when `skip_message` holds.
pub fn push_fields(out: &mut Vec<String>, fields: &Vec<Field>, skip_message: bool) -> (r: Result<(), EmitError>)
    ensures
        r is Ok,
        final(out).deep_view() == old(out).deep_view() + field_entries(
            if skip_message {
                without_message(fields@)
            } else {
                fields@
            },
        ),
{
    let ghost start = out.deep_view();
    let mut i: usize = 0;
    assert(fields@.take(0) =~= Seq::<Field>::empty());
    assert(start + field_entries(Seq::<Field>::empty()) =~= start);
    while i < fields.len()
        invariant
            i <= fields@.len(),
            start == old(out).deep_view(),
            out.deep_view() == start + field_entries(
                if skip_message {
                    without_message(fields@.take(i as int))
                } else {
                    fields@.take(i as int)
                },
            ),
        decreases fields@.len() - i,
    {
        let f = &fields[i];
        let ghost before = out.deep_view();
        let ghost sel = if skip_message {
            without_message(fields@.take(i as int))
        } else {
            fields@.take(i as int)
        };
        assert(fields@.take(i + 1).drop_last() =~= fields@.take(i as int));
        assert(fields@.take(i + 1).last() == fields@[i as int]);
        if skip_message && is_message_key(&f.key) {
        } else {
            let t = render_field(f)?;
            out.push(t);
            proof {
                assert(field_entries(sel.push(*f)) =~= field_entries(sel).push(field_entry(*f)));
                assert(out.deep_view() =~= before.push(t@));
                assert(out.deep_view() =~= start + field_entries(sel.push(*f)));
            }
        }
        i = i + 1;
    }
    assert(fields@.take(i as int) =~= fields@);
    Ok(())
}

impl LogRecord {
    /// The record as one line of JSON: the object, then a line feed.
    pub fn to_line(&self) -> (r: String)
        ensures
            r@ == record_line(self.entries.deep_view()),
    {
        let ghost es = self.entries.deep_view();
        let mut r = String::from_str("{");
        let mut i: usize = 0;
        assert(es.take(0) =~= Seq::<Seq<char>>::empty());
        while i < self.entries.len()
            invariant
                i <= es.len(),
                es == self.entries.deep_view(),
                r@ == "{"@ + joined(es.take(i as int)),
            decreases es.len() - i,
        {
            assert(es.take(i + 1).drop_last() =~= es.take(i as int));
            assert(es.take(i + 1).last() == self.entries@[i as int]@);
            if i > 0 {
                r.append(",");
            } else {
                assert(es.take(1).len() == 1);
            }
            r.append(self.entries[i].as_str());
            i = i + 1;
        }
        assert(es.take(i as int) =~= es);
        r.append("}");
        r.append("\n");
        r
    }
}

impl BunyanFormattingLayer {
    /// A formatter named `name`, for the process `pid`, on this machine.
    pub fn new(name: String, pid: u32) -> (r: Self)
        ensures
            r.name_view() == name@,
            r.pid_view() == pid,
            r.version_view() == 0,
    {
        BunyanFormattingLayer { name, hostname: host_name(), pid, bunyan_version: 0 }
    }

    /// The logger's name.
    pub fn name(&self) -> (r: &String)
        ensures
            r@ == self.name_view(),
    {
        &self.name
    }

    /// The host name, read at construction.
    pub fn hostname(&self) -> (r: &String)
        ensures
            r@ == self.hostname_view(),
    {
        &self.hostname
    }

    /// The process id.
    pub fn pid(&self) -> (r: u32)
        ensures
            r == self.pid_view(),
    {
        self.pid
    }

    /// The version of the Bunyan format.
    pub fn bunyan_version(&self) -> (r: u8)
        ensures
            r == self.version_view(),
    {
        self.bunyan_version
    }

    /// The seven core fields of a record.
    pub fn core_entries(&self, msg: &str, level: &Level, time: &str) -> (r: Result<Vec<String>, EmitError>)
        ensures
            r is Ok,
            r matches Ok(v) ==> v.deep_view() == core_fields(*self, msg@, level_code(*level), time@),
    {
        let mut v: Vec<String> = Vec::new();
        v.push(int_entry("v", self.bunyan_version as u64)?);
        v.push(str_entry("name", self.name.as_str())?);
        v.push(str_entry("msg", msg)?);
        v.push(int_entry("level", to_bunyan_level(level) as u64)?);
        v.push(str_entry("hostname", self.hostname.as_str())?);
        v.push(int_entry("pid", self.pid as u64)?);
        v.push(str_entry("time", time)?);
        assert(v.deep_view() =~= core_fields(*self, msg@, level_code(*level), time@));
        Ok(v)
    }

    /// The record for entering (`EnterSpan`) or exiting (`ExitSpan`) `span`,
    /// stamped `time`: the core fields, then the fields stored for the span.
    pub fn span_record_at(&self, span: &Span, ty: &Type, time: &str) -> (r: Result<LogRecord, EmitError>)
        ensures
            r is Ok,
            r matches Ok(rec) ==> is_record(
                rec.entries.deep_view(),
                *self,
                label_of(upper_of(span.name@), *ty),
                level_code(span.level),
                time@,
                span.fields@,
            ),
    {
        let msg = format_span_context(span.name.as_str(), ty);
        let mut entries = self.core_entries(msg.as_str(), &span.level, time)?;
        push_fields(&mut entries, &span.fields, false)?;
        Ok(LogRecord { entries })
    }

    /// The record for `event`, stamped `time`: the core fields, then the
    /// event's own fields but `message`, then the fields stored for the
    /// current span, if there is one.
    pub fn event_record_at(&self, event: &Event, current_span: Option<&Span>, time: &str) -> (r: Result<
        LogRecord,
        EmitError,
    >)
        ensures
            r is Ok,
            r matches Ok(rec) ==> is_record(
                rec.entries.deep_view(),
                *self,
                event_record_message(*event, current_span),
                level_code(event.level),
                time@,
                event_context(*event, current_span),
            ),
    {
        let name = match current_span {
            Some(s) => Some(s.name.as_str()),
            None => None,
        };
        let msg = format_event_message(name, &event.fields, event.target.as_str());
        let mut entries = self.core_entries(msg.as_str(), &event.level, time)?;
        let ghost core = entries.deep_view();
        push_fields(&mut entries, &event.fields, true)?;
        let ghost own = without_message(event.fields@);
        match current_span {
            Some(s) => {
                push_fields(&mut entries, &s.fields, false)?;
                assert(field_entries(own + s.fields@) =~= field_entries(own) + field_entries(
                    s.fields@,
                ));
                assert(entries.deep_view() =~= core + field_entries(own + s.fields@));
            },
            None => {
                assert(own + Seq::<Field>::empty() =~= own);
            },
        }
        Ok(LogRecord { entries })
    }

    /// The record for entering or exiting `span`, stamped with the current time.
    pub fn span_record(&self, span: &Span, ty: &Type) -> (r: Result<LogRecord, EmitError>)
        ensures
            r is Ok,
            r matches Ok(rec) ==> exists|time: Seq<char>|
                is_record(
                    rec.entries.deep_view(),
                    *self,
                    label_of(upper_of(span.name@), *ty),
                    level_code(span.level),
                    time,
                    span.fields@,
                ),
    {
        let time = now_rfc3339();
        self.span_record_at(span, ty, time.as_str())
    }

    /// The record for `event`, stamped with the current time.
    pub fn event_record(&self, event: &Event, current_span: Option<&Span>) -> (r: Result<LogRecord, EmitError>)
        ensures
            r is Ok,
            r matches Ok(rec) ==> exists|time: Seq<char>|
                is_record(
                    rec.entries.deep_view(),
                    *self,
                    event_record_message(*event, current_span),
                    level_code(event.level),
                    time,
                    event_context(*event, current_span),
                ),
    {
        let time = now_rfc3339();
        self.event_record_at(event, current_span, time.as_str())
    }
}


/// `t` is a JSON string, number or boolean.
pub open spec fn is_json_scalar(t: Seq<char>) -> bool {
    (exists|s: Seq<char>| t == #[trigger] quoted(s)) || (exists|n: int| t == #[trigger] int_text(n))
        || t == "true"@ || t == "false"@
}

/// `m` is a JSON object member whose value is a string, number or boolean.
pub open spec fn is_json_member(m: Seq<char>) -> bool {
    exists|k: Seq<char>, v: Seq<char>| m == #[trigger] entry(k, v) && is_json_scalar(v)
}

proof fn lemma_entry_single_line(key: Seq<char>, value: Seq<char>)
    requires
        single_line(value),
    ensures
        single_line(entry(key, value)),
{
    reveal_strlit(":");
    lemma_quoted_single_line(key);
    lemma_single_line_concat(quoted(key), ":"@);
    lemma_single_line_concat(quoted(key) + ":"@, value);
}

proof fn lemma_value_text(v: FieldValue)
    ensures
        single_line(value_text(v)),
        is_json_scalar(value_text(v)),
{
    match v {
        FieldValue::Str(s) => {
            lemma_quoted_single_line(s@);
            assert(value_text(v) == quoted(s@));
        },
        FieldValue::Int(n) => {
            lemma_int_text_single_line(n as int);
            assert(value_text(v) == int_text(n as int));
        },
        FieldValue::UInt(n) => {
            lemma_decimal_single_line(n as nat);
            assert(value_text(v) == int_text(n as int));
        },
        FieldValue::Bool(b) => {
            lemma_bool_text_single_line(b);
        },
    }
}

proof fn lemma_joined_single_line(es: Seq<Seq<char>>)
    requires
        forall|i: int| 0 <= i < es.len() ==> single_line(#[trigger] es[i]),
    ensures
        single_line(joined(es)),
    decreases es.len(),
{
    reveal_strlit(",");
    if es.len() == 1 {
        assert(single_line(es[0]));
    } else if es.len() > 1 {
        let front = es.drop_last();
        assert forall|i: int| 0 <= i < front.len() implies single_line(#[trigger] front[i]) by {
            assert(front[i] == es[i]);
        }
        lemma_joined_single_line(front);
        assert(single_line(es[es.len() - 1]));
        lemma_single_line_concat(joined(front), ","@);
        lemma_single_line_concat(joined(front) + ","@, es.last());
    }
}

proof fn lemma_record_entries(
    es: Seq<Seq<char>>,
    layer: BunyanFormattingLayer,
    msg: Seq<char>,
    level: u16,
    time: Seq<char>,
    fields: Seq<Field>,
)
    requires
        is_record(es, layer, msg, level, time, fields),
    ensures
        forall|i: int| 0 <= i < es.len() ==> single_line(#[trigger] es[i]) && is_json_member(es[i]),
{
    assert forall|i: int| 0 <= i < es.len() implies single_line(#[trigger] es[i]) && is_json_member(
        es[i],
    ) by {
        if i < 7 {
            let core = core_fields(layer, msg, level, time);
            assert(es[i] == core[i]);
            let (k, v) = if i == 0 {
                ("v"@, decimal(layer.version_view() as nat))
            } else if i == 1 {
                ("name"@, quoted(layer.name_view()))
            } else if i == 2 {
                ("msg"@, quoted(msg))
            } else if i == 3 {
                ("level"@, decimal(level as nat))
            } else if i == 4 {
                ("hostname"@, quoted(layer.hostname_view()))
            } else if i == 5 {
                ("pid"@, decimal(layer.pid_view() as nat))
            } else {
                ("time"@, quoted(time))
            };
            assert(es[i] == entry(k, v));
            if i == 0 || i == 3 || i == 5 {
                let n: nat = if i == 0 {
                    layer.version_view() as nat
                } else if i == 3 {
                    level as nat
                } else {
                    layer.pid_view() as nat
                };
                assert(v == decimal(n));
                lemma_decimal_single_line(n);
                assert(v == int_text(n as int));
            } else {
                let s = if i == 1 {
                    layer.name_view()
                } else if i == 2 {
                    msg
                } else if i == 4 {
                    layer.hostname_view()
                } else {
                    time
                };
                assert(v == quoted(s));
                lemma_quoted_single_line(s);
            }
            lemma_entry_single_line(k, v);
        } else {
            let f = fields[i - 7];
            assert(es[i] == field_entry(f));
            lemma_value_text(f.value);
            lemma_entry_single_line(f.key@, value_text(f.value));
        }
    }
}

/// Every record is emitted as one line holding one JSON object: the line
/// ends in its only line feed, and before it stand `{`, the members joined by
/// commas, and `}`, each member a JSON string key with a string, number or
/// boolean value. Records therefore never share or split a line.
pub proof fn lemma_record_is_one_json_line(
    es: Seq<Seq<char>>,
    layer: BunyanFormattingLayer,
    msg: Seq<char>,
    level: u16,
    time: Seq<char>,
    fields: Seq<Field>,
)
    requires
        is_record(es, layer, msg, level, time, fields),
    ensures
        record_line(es).last() == '\n',
        record_line(es).drop_last() == "{"@ + joined(es) + "}"@,
        single_line(record_line(es).drop_last()),
        forall|i: int| 0 <= i < es.len() ==> is_json_member(#[trigger] es[i]),
{
    reveal_strlit("{");
    reveal_strlit("}");
    reveal_strlit("\n");
    lemma_record_entries(es, layer, msg, level, time, fields);
    lemma_joined_single_line(es);
    lemma_single_line_concat("{"@, joined(es));
    lemma_single_line_concat("{"@ + joined(es), "}"@);
    assert(record_line(es).drop_last() =~= "{"@ + joined(es) + "}"@);
}

/// A record opens with the seven core fields, keyed `v`, `name`, `msg`,
/// `level`, `hostname`, `pid` and `time` in that order, whose values are an
/// integer, a string, a string, an integer, a string, an integer and a
/// string; then come exactly the members for the contextual fields, so a
/// contextual key equal to a core key appears a second time.
pub proof fn lemma_core_fields_typed(
    es: Seq<Seq<char>>,
    layer: BunyanFormattingLayer,
    msg: Seq<char>,
    level: u16,
    time: Seq<char>,
    fields: Seq<Field>,
)
    requires
        is_record(es, layer, msg, level, time, fields),
    ensures
        es.len() == 7 + fields.len(),
        es[0] == entry("v"@, decimal(layer.version_view() as nat)),
        es[1] == entry("name"@, quoted(layer.name_view())),
        es[2] == entry("msg"@, quoted(msg)),
        es[3] == entry("level"@, decimal(level as nat)),
        es[4] == entry("hostname"@, quoted(layer.hostname_view())),
        es[5] == entry("pid"@, decimal(layer.pid_view() as nat)),
        es[6] == entry("time"@, quoted(time)),
        forall|i: int| 0 <= i < fields.len() ==> es[7 + i] == field_entry(#[trigger] fields[i]),
{
}

proof fn lemma_without_message(fields: Seq<Field>)
    ensures
        forall|i: int|
            0 <= i < without_message(fields).len() ==> (#[trigger] without_message(fields)[i]).key@
                != message_key(),
    decreases fields.len(),
{
    if fields.len() > 0 {
        lemma_without_message(fields.drop_last());
    }
}

/// An event's own `message` field is consumed by its message, not copied: in
/// the event's record, `msg` holds the resolved message, and none of the
/// members for the event's own fields is keyed `message`; with no current
/// span, no member past the core fields is keyed `message`.
pub proof fn lemma_message_consumed(
    es: Seq<Seq<char>>,
    layer: BunyanFormattingLayer,
    event: Event,
    current_span: Option<&Span>,
    time: Seq<char>,
)
    requires
        is_record(
            es,
            layer,
            event_record_message(event, current_span),
            level_code(event.level),
            time,
            event_context(event, current_span),
        ),
    ensures
        es[2] == entry("msg"@, quoted(event_record_message(event, current_span))),
        forall|i: int|
            0 <= i < without_message(event.fields@).len() ==> es[7 + i] == entry(
                (#[trigger] without_message(event.fields@)[i]).key@,
                value_text(without_message(event.fields@)[i].value),
            ) && without_message(event.fields@)[i].key@ != message_key(),
        current_span is None ==> es.len() == 7 + without_message(event.fields@).len(),
{
    lemma_without_message(event.fields@);
    let own = without_message(event.fields@);
    let ctx = event_context(event, current_span);
    assert forall|i: int| 0 <= i < own.len() implies es[7 + i] == entry(
        (#[trigger] own[i]).key@,
        value_text(own[i].value),
    ) && own[i].key@ != message_key() by {
        assert(ctx[i] == own[i]);
        assert(es[7 + i] == field_entries(ctx)[i]);
    }
}

} // verus!
