use vstd::prelude::*;

use crate::model::{QueryMode, TimeRange, Timestamp};

verus! {

/// Lower-case hexadecimal digit of a value below sixteen.
pub open spec fn hex_lower(d: int) -> char {
    seq!['0', '1', '2', '3', '4', '5', '6', '7', '8', '9', 'a', 'b', 'c', 'd', 'e', 'f'][d]
}

/// What one character becomes inside a JSON string literal: the quote, the
/// backslash and the control characters are escaped, all else stays.
pub open spec fn json_escaped_char(c: char) -> Seq<char> {
    let n = c as u32;
    if c == '"' {
        seq!['\\', '"']
    } else if c == '\\' {
        seq!['\\', '\\']
    } else if n == 8 {
        seq!['\\', 'b']
    } else if n == 9 {
        seq!['\\', 't']
    } else if n == 10 {
        seq!['\\', 'n']
    } else if n == 12 {
        seq!['\\', 'f']
    } else if n == 13 {
        seq!['\\', 'r']
    } else if n < 32 {
        seq!['\\', 'u', '0', '0', hex_lower(n as int / 16), hex_lower(n as int % 16)]
    } else {
        seq![c]
    }
}

/// The escaped contents of a JSON string literal.
pub open spec fn json_escaped(s: Seq<char>) -> Seq<char>
    decreases s.len(),
{
    if s.len() == 0 {
        Seq::empty()
    } else {
        json_escaped(s.drop_last()) + json_escaped_char(s.last())
    }
}

/// A text written as a JSON string literal.
pub open spec fn json_quoted(s: Seq<char>) -> Seq<char> {
    seq!['"'] + json_escaped(s) + seq!['"']
}

/// The wire tag of a query mode.
pub open spec fn mode_tag(mode: QueryMode) -> Seq<char> {
    match mode {
        QueryMode::Instant(_) => "instant"@,
        QueryMode::Series(_) => "series"@,
    }
}

/// A time range as a JSON object.
pub open spec fn range_document(range: TimeRange) -> Seq<char> {
    "{\"from\":"@ + range.from.number@ + ",\"to\":"@ + range.to.number@ + "}"@
}

/// The mode-specific payload of a query mode, as JSON text.
pub open spec fn mode_payload(mode: QueryMode) -> Seq<char> {
    match mode {
        QueryMode::Instant(t) => t.number@,
        QueryMode::Series(range) => range_document(range),
    }
}

/// A query mode as a JSON object: its tag under `type`, its payload under `payload`.
pub open spec fn mode_document(mode: QueryMode) -> Seq<char> {
    "{\"type\":\""@ + mode_tag(mode) + "\",\"payload\":"@ + mode_payload(mode) + "}"@
}

/// The relay payload as a JSON object, given the query already written as a
/// JSON string literal.
pub open spec fn payload_document(quoted_query: Seq<char>, mode: QueryMode) -> Seq<char> {
    "{\"query\":"@ + quoted_query + ",\"queryType\":"@ + mode_document(mode) + "}"@
}

/// Index of the first `c` in `s`, or the length of `s` where there is none.
pub open spec fn first_index_of(s: Seq<char>, c: char) -> int
    decreases s.len(),
{
    if s.len() == 0 {
        0
    } else if s[0] == c {
        0
    } else {
        1 + first_index_of(s.drop_first(), c)
    }
}

/// Reads a query-mode JSON object back into its tag and its payload text: the
/// tag runs from the opening `{"type":"` to the next quote, the payload from
/// the following `,"payload":` to the closing brace.
pub open spec fn read_mode_document(text: Seq<char>) -> Option<(Seq<char>, Seq<char>)> {
    let head = "{\"type\":\""@;
    let sep = "\",\"payload\":"@;
    if head.len() <= text.len() && text.subrange(0, head.len() as int) == head {
        let rest = text.subrange(head.len() as int, text.len() as int);
        let k = first_index_of(rest, '"');
        let after = rest.subrange(k, rest.len() as int);
        if sep.len() < after.len() && after.subrange(0, sep.len() as int) == sep && after.last()
            == '}' {
            Some((rest.subrange(0, k), after.subrange(sep.len() as int, after.len() - 1)))
        } else {
            None
        }
    } else {
        None
    }
}

/// Where `a` holds no `c` and `b` starts with one, the first `c` of `a + b`
/// stands right after `a`.
pub proof fn lemma_first_index_past_free(a: Seq<char>, b: Seq<char>, c: char)
    requires
        forall|i: int| 0 <= i < a.len() ==> a[i] != c,
        0 < b.len(),
        b[0] == c,
    ensures
        first_index_of(a + b, c) == a.len(),
    decreases a.len(),
{
    if a.len() > 0 {
        assert((a + b).drop_first() =~= a.drop_first() + b);
        lemma_first_index_past_free(a.drop_first(), b, c);
    } else {
        assert(a + b =~= b);
    }
}

/// The tag and the payload of a query mode are read back unchanged from its
/// JSON object: `instant` with the timestamp, or `series` with the range.
pub proof fn lemma_query_mode_round_trip(mode: QueryMode)
    ensures
        read_mode_document(mode_document(mode)) == Some((mode_tag(mode), mode_payload(mode))),
{
    reveal_strlit("{\"type\":\"");
    reveal_strlit("\",\"payload\":");
    reveal_strlit("}");
    reveal_strlit("instant");
    reveal_strlit("series");
    let head = "{\"type\":\""@;
    let sep = "\",\"payload\":"@;
    let tag = mode_tag(mode);
    let payload = mode_payload(mode);
    let tail = sep + payload + "}"@;
    let text = mode_document(mode);
    assert(text =~= head + (tag + tail));
    assert(text.subrange(0, head.len() as int) =~= head);
    let rest = text.subrange(head.len() as int, text.len() as int);
    assert(rest =~= tag + tail);
    lemma_first_index_past_free(tag, tail, '"');
    let after = rest.subrange(tag.len() as int, rest.len() as int);
    assert(after =~= tail);
    assert(rest.subrange(0, tag.len() as int) =~= tag);
    assert(after.subrange(0, sep.len() as int) =~= sep);
    assert(after.subrange(sep.len() as int, after.len() - 1) =~= payload);
}

/// Relies on serde_json::to_string on a `str`: on success, the text as a JSON
/// string literal, with `"`, `\` and the control characters escaped.
#[verifier::external_body]
pub(crate) fn json_quote(s: &str) -> (r: Result<String, String>)
    ensures
        r is Ok,
        r matches Ok(q) ==> q@ == json_quoted(s@),
{
    match serde_json::to_string(s) {
        Ok(q) => Ok(q),
        Err(e) => Err(e.to_string()),
    }
}

/// Writes a timestamp's number text onto `out`.
fn push_timestamp(out: &mut String, t: &Timestamp)
    ensures
        final(out)@ == old(out)@ + t.number@,
{
    out.append(t.number.as_str());
}

/// Writes a query mode as its JSON object; its timestamps are JSON numbers
/// or `null`, so the object is JSON.
pub fn encode_query_mode(mode: &QueryMode) -> (r: String)
    requires
        mode.valid(),
    ensures
        r@ == mode_document(*mode),
{
    let mut out = "{\"type\":\"".to_owned();
    match mode {
        QueryMode::Instant(t) => {
            out.append("instant");
            out.append("\",\"payload\":");
            push_timestamp(&mut out, t);
        },
        QueryMode::Series(range) => {
            out.append("series");
            out.append("\",\"payload\":");
            out.append("{\"from\":");
            push_timestamp(&mut out, &range.from);
            out.append(",\"to\":");
            push_timestamp(&mut out, &range.to);
            out.append("}");
        },
    }
    out.append("}");
    out
}

/// Writes the relay payload, given the query already written as a JSON
/// string literal.
pub fn encode_payload(quoted_query: &str, mode: &QueryMode) -> (r: String)
    requires
        mode.valid(),
    ensures
        r@ == payload_document(quoted_query@, *mode),
{
    let mut out = "{\"query\":".to_owned();
    out.append(quoted_query);
    out.append(",\"queryType\":");
    let m = encode_query_mode(mode);
    out.append(m.as_str());
    out.append("}");
    out
}

} // verus!
