use vstd::prelude::*;

verus! {

#[verifier::external_type_specification]
#[verifier::external_body]
pub struct ExJsonError(serde_json::Error);

/// Lower-case hexadecimal digit of `n`, for `n < 16`.
pub open spec fn hex_digit(n: int) -> char {
    seq!['0', '1', '2', '3', '4', '5', '6', '7', '8', '9', 'a', 'b', 'c', 'd', 'e', 'f'][n]
}

/// How one character stands inside a JSON string literal.
pub open spec fn escape_char(c: char) -> Seq<char> {
    let n = c as u32;
    if c == '"' {
        seq!['\\', '"']
    } else if c == '\\' {
        seq!['\\', '\\']
    } else if n == 8 {
        seq!['\\', 'b']
    } else if n == 9 {
        seq!['\\', 't']
    } else if n == 10 {
        seq!['\\', 'n']
    } else if n == 12 {
        seq!['\\', 'f']
    } else if n == 13 {
        seq!['\\', 'r']
    } else if n < 32 {
        seq!['\\', 'u', '0', '0', hex_digit(n as int / 16), hex_digit(n as int % 16)]
    } else {
        seq![c]
    }
}

/// The characters of `s`, each escaped for a JSON string literal.
pub open spec fn escape(s: Seq<char>) -> Seq<char>
    decreases s.len(),
{
    if s.len() == 0 {
        Seq::empty()
    } else {
        escape(s.drop_last()) + escape_char(s.last())
    }
}

/// `s` as a JSON string literal.
pub open spec fn quoted(s: Seq<char>) -> Seq<char> {
    seq!['"'] + escape(s) + seq!['"']
}

/// Decimal digit for `d < 10`.
pub open spec fn digit(d: int) -> char {
    seq!['0', '1', '2', '3', '4', '5', '6', '7', '8', '9'][d]
}

/// `n` written in decimal, as a JSON number.
pub open spec fn decimal(n: nat) -> Seq<char>
    decreases n,
{
    if n < 10 {
        seq![digit(n as int)]
    } else {
        decimal(n / 10) + seq![digit(n as int % 10)]
    }
}

/// No line feed among the characters of `s`.
pub open spec fn single_line(s: Seq<char>) -> bool {
    forall|i: int| 0 <= i < s.len() ==> s[i] != '\n'
}

/// A signed integer written in decimal, as a JSON number.
pub open spec fn int_text(n: int) -> Seq<char> {
    if n < 0 {
        "-"@ + decimal((-n) as nat)
    } else {
        decimal(n as nat)
    }
}

/// A boolean as a JSON literal.
pub open spec fn bool_text(b: bool) -> Seq<char> {
    if b {
        "true"@
    } else {
        "false"@
    }
}

/// Relies on serde_json::to_string on a `&str`: the compact serializer writes
/// into a `Vec`, which cannot fail, the string between quotes, escaping as its
/// escape table says.
#[verifier::external_body]
pub(crate) fn encode_str(s: &str) -> (r: Result<String, serde_json::Error>)
    ensures
        r is Ok,
        r matches Ok(t) ==> t@ == quoted(s@),
{
    serde_json::to_string(s)
}

/// Relies on serde_json::to_string on a `u64`: written into a `Vec`, which
/// cannot fail, in decimal.
#[verifier::external_body]
pub(crate) fn encode_u64(n: u64) -> (r: Result<String, serde_json::Error>)
    ensures
        r is Ok,
        r matches Ok(t) ==> t@ == decimal(n as nat),
{
    serde_json::to_string(&n)
}

/// Relies on serde_json::to_string on an `i64`: written into a `Vec`, which
/// cannot fail, in decimal with a leading `-` when negative.
#[verifier::external_body]
pub(crate) fn encode_i64(n: i64) -> (r: Result<String, serde_json::Error>)
    ensures
        r is Ok,
        r matches Ok(t) ==> t@ == int_text(n as int),
{
    serde_json::to_string(&n)
}

/// Relies on serde_json::to_string on a `bool`: written into a `Vec`, which
/// cannot fail, as `true` or `false`.
#[verifier::external_body]
pub(crate) fn encode_bool(b: bool) -> (r: Result<String, serde_json::Error>)
    ensures
        r is Ok,
        r matches Ok(t) ==> t@ == bool_text(b),
{
    serde_json::to_string(&b)
}

pub proof fn lemma_single_line_concat(a: Seq<char>, b: Seq<char>)
    requires
        single_line(a),
        single_line(b),
    ensures
        single_line(a + b),
{
    assert forall|i: int| 0 <= i < (a + b).len() implies (a + b)[i] != '\n' by {
        if i < a.len() {
            assert((a + b)[i] == a[i]);
        } else {
            assert((a + b)[i] == b[i - a.len()]);
        }
    }
}

proof fn lemma_escape_char_single_line(c: char)
    ensures
        single_line(escape_char(c)),
{
    let n = c as u32;
    if n < 32 && c != '"' && c != '\\' && n != 8 && n != 9 && n != 10 && n != 12 && n != 13 {
        let e = escape_char(c);
        assert(0 <= n as int / 16 < 16);
        assert(0 <= n as int % 16 < 16);
        assert forall|i: int| 0 <= i < e.len() implies e[i] != '\n' by {
            if i >= 4 {
                let d = if i == 4 { n as int / 16 } else { n as int % 16 };
                assert(hex_digit(d) != '\n');
            }
        }
    } else if n == 10 {
        assert(single_line(escape_char(c)));
    }
}

/// A JSON string literal never holds a raw line feed.
pub proof fn lemma_quoted_single_line(s: Seq<char>)
    ensures
        single_line(quoted(s)),
    decreases s.len(),
{
    lemma_escape_single_line(s);
    lemma_single_line_concat(seq!['"'], escape(s));
    lemma_single_line_concat(seq!['"'] + escape(s), seq!['"']);
}

proof fn lemma_escape_single_line(s: Seq<char>)
    ensures
        single_line(escape(s)),
    decreases s.len(),
{
    if s.len() > 0 {
        lemma_escape_single_line(s.drop_last());
        lemma_escape_char_single_line(s.last());
        lemma_single_line_concat(escape(s.drop_last()), escape_char(s.last()));
    }
}

/// A decimal number never holds a line feed.
pub proof fn lemma_decimal_single_line(n: nat)
    ensures
        single_line(decimal(n)),
    decreases n,
{
    if n >= 10 {
        lemma_decimal_single_line(n / 10);
        assert(0 <= n as int % 10 < 10);
        lemma_single_line_concat(decimal(n / 10), seq![digit(n as int % 10)]);
    } else {
        assert(single_line(decimal(n)));
    }
}

/// A signed decimal number never holds a line feed.
pub proof fn lemma_int_text_single_line(n: int)
    ensures
        single_line(int_text(n)),
{
    reveal_strlit("-");
    if n < 0 {
        lemma_decimal_single_line((-n) as nat);
        lemma_single_line_concat("-"@, decimal((-n) as nat));
    } else {
        lemma_decimal_single_line(n as nat);
    }
}

/// A JSON boolean never holds a line feed.
pub proof fn lemma_bool_text_single_line(b: bool)
    ensures
        single_line(bool_text(b)),
{
    reveal_strlit("true");
    reveal_strlit("false");
}

} // verus!
