use vstd::prelude::*;

verus! {

/// The kind of record being formatted: entering a span, exiting a span, an event.
#[derive(Clone, Copy, Debug, PartialEq, Eq, Structural)]
pub enum Type {
    EnterSpan,
    ExitSpan,
    Event,
}

/// The tag that names each kind of record in a message.
pub open spec fn tag_of(ty: Type) -> Seq<char> {
    match ty {
        Type::EnterSpan => "START"@,
        Type::ExitSpan => "END"@,
        Type::Event => "EVENT"@,
    }
}

/// The bracketed label `[<NAME> - <TAG>]`, for a span name already upper-cased.
pub open spec fn label_of(upper_name: Seq<char>, ty: Type) -> Seq<char> {
    "["@ + upper_name + " - "@ + tag_of(ty) + "]"@
}

/// What `str::to_uppercase` returns on `s`.
pub uninterp spec fn upper_of(s: Seq<char>) -> Seq<char>;

/// Relies on str::to_uppercase: the upper-case mapping of each character,
/// which depends on the characters alone.
#[verifier::external_body]
fn uppercase(s: &str) -> (r: String)
    ensures
        r@ == upper_of(s@),
{
    s.to_uppercase()
}

impl Type {
    /// The tag of this kind: `START`, `END` or `EVENT`.
    pub fn tag(&self) -> (r: &'static str)
        ensures
            r@ == tag_of(*self),
    {
        match self {
            Type::EnterSpan => "START",
            Type::ExitSpan => "END",
            Type::Event => "EVENT",
        }
    }
}

/// The span-context label for a span whose name is already upper-cased.
pub fn span_label(upper_name: &str, ty: &Type) -> (r: String)
    ensures
        r@ == label_of(upper_name@, *ty),
{
    let mut r = String::from_str("[");
    r.append(upper_name);
    r.append(" - ");
    r.append(ty.tag());
    r.append("]");
    r
}

/// Consistent formatting of the span context, e.g. `[AN_INTERESTING_SPAN - START]`.
pub fn format_span_context(span_name: &str, ty: &Type) -> (r: String)
    ensures
        r@ == label_of(upper_of(span_name@), *ty),
{
    let upper = uppercase(span_name);
    span_label(upper.as_str(), ty)
}

} // verus!
