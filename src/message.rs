use vstd::prelude::*;
use crate::context::{format_span_context, label_of, upper_of, Type};

verus! {

/// The value of a contextual field, one of the kinds a field can be recorded as.
pub enum FieldValue {
    Str(String),
    Int(i64),
    UInt(u64),
    Bool(bool),
}

/// One contextual key/value pair attached to a span or an event.
pub struct Field {
    pub key: String,
    pub value: FieldValue,
}

/// The key of an event's own message field.
pub open spec fn message_key() -> Seq<char> {
    "message"@
}

/// The text of the first field keyed `message`, when its value is a string.
pub open spec fn message_text(fields: Seq<Field>) -> Option<Seq<char>>
    decreases fields.len(),
{
    if fields.len() == 0 {
        None
    } else if fields[0].key@ == message_key() {
        match fields[0].value {
            FieldValue::Str(s) => Some(s@),
            _ => None,
        }
    } else {
        message_text(fields.drop_first())
    }
}

/// The message of an event: its message text, or else its target, preceded by
/// the span-context label and a space when there is one.
pub open spec fn event_message(
    label: Option<Seq<char>>,
    fields: Seq<Field>,
    target: Seq<char>,
) -> Seq<char> {
    let base = match message_text(fields) {
        Some(m) => m,
        None => target,
    };
    match label {
        Some(l) => l + " "@ + base,
        None => base,
    }
}

/// Whether `key` is the key of an event's own message field.
pub fn is_message_key(key: &String) -> (r: bool)
    ensures
        r == (key@ == message_key()),
{
    let m = String::from_str("message");
    *key == m
}

/// The text of the first field keyed `message`, when its value is a string.
pub fn find_message(fields: &Vec<Field>) -> (r: Option<&String>)
    ensures
        r matches Some(s) ==> message_text(fields@) == Some(s@),
        r is None ==> message_text(fields@) is None,
{
    let mut i: usize = 0;
    assert(fields@.skip(0) =~= fields@);
    while i < fields.len()
        invariant
            i <= fields@.len(),
            message_text(fields@) == message_text(fields@.skip(i as int)),
        decreases fields@.len() - i,
    {
        let f = &fields[i];
        assert(fields@.skip(i as int)[0] == fields@[i as int]);
        assert(fields@.skip(i as int).drop_first() =~= fields@.skip(i + 1));
        if is_message_key(&f.key) {
            return match &f.value {
                FieldValue::Str(s) => Some(s),
                _ => None,
            };
        }
        i = i + 1;
    }
    assert(fields@.skip(i as int).len() == 0);
    None
}

/// The message of an event, given the span-context label of the current span
/// (if any): the string field `message`, else `target`.
pub fn compose_event_message(label: Option<&str>, fields: &Vec<Field>, target: &str) -> (r: String)
    ensures
        r@ == event_message(
            match label {
                Some(l) => Some(l@),
                None => None,
            },
            fields@,
            target@,
        ),
{
    let base = match find_message(fields) {
        Some(m) => m.as_str(),
        None => target,
    };
    match label {
        Some(l) => {
            let mut r = String::from_str(l);
            r.append(" ");
            r.append(base);
            r
        },
        None => String::from_str(base),
    }
}

/// Consistent formatting of an event's message, e.g.
/// `[AN_INTERESTING_SPAN - EVENT] My event message` inside a span, and
/// `My event message` outside any span.
pub fn format_event_message(current_span: Option<&str>, fields: &Vec<Field>, target: &str) -> (r: String)
    ensures
        r@ == event_message(
            match current_span {
                Some(name) => Some(label_of(upper_of(name@), Type::Event)),
                None => None,
            },
            fields@,
            target@,
        ),
{
    match current_span {
        Some(name) => {
            let label = format_span_context(name, &Type::Event);
            compose_event_message(Some(label.as_str()), fields, target)
        },
        None => compose_event_message(None, fields, target),
    }
}

} // verus!
