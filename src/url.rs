use vstd::prelude::*;
use vstd::utf8::encode_utf8;

use crate::model::ProxyDataSource;
use crate::payload::{first_index_of, lemma_first_index_past_free};

verus! {

/// Bytes that stand for themselves in a percent-encoded text: ASCII letters,
/// digits and `-`, `.`, `_`, `~`.
pub open spec fn is_unreserved(b: u8) -> bool {
    (48 <= b && b <= 57) || (65 <= b && b <= 90) || (97 <= b && b <= 122) || b == 45 || b
        == 46 || b == 95 || b == 126
}

/// An upper-case hexadecimal digit.
pub open spec fn is_hex_upper(c: char) -> bool {
    let n = c as u32;
    (48 <= n <= 57) || (65 <= n <= 70)
}

/// Every `%` of a percent-encoded text opens an escape: two upper-case hex
/// digits follow it.
pub proof fn lemma_percent_escapes_complete(bytes: Seq<u8>)
    ensures
        forall|i: int|
            0 <= i < percent_encoded(bytes).len() && #[trigger] percent_encoded(bytes)[i] == '%'
                ==> i + 2 < percent_encoded(bytes).len() && is_hex_upper(percent_encoded(bytes)[i + 1])
                && is_hex_upper(percent_encoded(bytes)[i + 2]),
    decreases bytes.len(),
{
    if bytes.len() > 0 {
        lemma_percent_escapes_complete(bytes.drop_last());
        let b = bytes.last();
        let prefix = percent_encoded(bytes.drop_last());
        let piece = percent_encoded_byte(b);
        let e = percent_encoded(bytes);
        assert(e =~= prefix + piece);
        if !is_unreserved(b) {
            let hi = b as int / 16;
            let lo = b as int % 16;
            assert(0 <= hi < 16 && 0 <= lo < 16);
            assert(is_hex_upper(hex_upper(hi)) && hex_upper(hi) != '%');
            assert(is_hex_upper(hex_upper(lo)) && hex_upper(lo) != '%');
        }
        assert forall|i: int| 0 <= i < e.len() && #[trigger] e[i] == '%' implies i + 2 < e.len()
            && is_hex_upper(e[i + 1]) && is_hex_upper(e[i + 2]) by {
            if i < prefix.len() {
                assert(prefix[i] == '%');
                assert(e[i + 1] == prefix[i + 1]);
                assert(e[i + 2] == prefix[i + 2]);
            } else {
                assert(piece[i - prefix.len()] == '%');
            }
        }
    }
}

/// Upper-case hexadecimal digit of a value below sixteen.
pub open spec fn hex_upper(d: int) -> char {
    seq!['0', '1', '2', '3', '4', '5', '6', '7', '8', '9', 'A', 'B', 'C', 'D', 'E', 'F'][d]
}

/// What one byte becomes in a percent-encoded text.
pub open spec fn percent_encoded_byte(b: u8) -> Seq<char> {
    if is_unreserved(b) {
        seq![b as char]
    } else {
        seq!['%', hex_upper(b as int / 16), hex_upper(b as int % 16)]
    }
}

/// Percent-encoding of a byte sequence, byte by byte.
pub open spec fn percent_encoded(bytes: Seq<u8>) -> Seq<char>
    decreases bytes.len(),
{
    if bytes.len() == 0 {
        Seq::empty()
    } else {
        percent_encoded(bytes.drop_last()) + percent_encoded_byte(bytes.last())
    }
}

/// Percent-encoding of the UTF-8 bytes of a text.
pub open spec fn percent_encoded_text(s: Seq<char>) -> Seq<char> {
    percent_encoded(encode_utf8(s))
}

/// Characters that can stand in a percent-encoded text: ASCII letters and
/// digits, `-`, `.`, `_`, `~`, and the `%` that opens an escape.
pub open spec fn is_percent_safe(c: char) -> bool {
    let n = c as u32;
    (48 <= n <= 57) || (65 <= n <= 90) || (97 <= n <= 122) || n == 45 || n == 46 || n == 95
        || n == 126 || n == 37
}

/// A percent-encoded text holds no reserved character (no space, `/`, `?`,
/// `&`, `=`, `#`) and nothing outside ASCII: each of them was escaped.
pub proof fn lemma_percent_encoded_is_safe(bytes: Seq<u8>)
    ensures
        forall|i: int|
            0 <= i < percent_encoded(bytes).len() ==> is_percent_safe(
                #[trigger] percent_encoded(bytes)[i],
            ),
    decreases bytes.len(),
{
    if bytes.len() > 0 {
        lemma_percent_encoded_is_safe(bytes.drop_last());
        let b = bytes.last();
        let prefix = percent_encoded(bytes.drop_last());
        let piece = percent_encoded_byte(b);
        assert forall|j: int| 0 <= j < piece.len() implies is_percent_safe(piece[j]) by {
            if !is_unreserved(b) {
                let hi = b as int / 16;
                let lo = b as int % 16;
                assert(0 <= hi < 16 && 0 <= lo < 16);
            }
        }
        assert forall|i: int| 0 <= i < percent_encoded(bytes).len() implies is_percent_safe(
            #[trigger] percent_encoded(bytes)[i],
        ) by {
            if i >= prefix.len() {
                assert(percent_encoded(bytes)[i] == piece[i - prefix.len()]);
            } else {
                assert(percent_encoded(bytes)[i] == prefix[i]);
            }
        }
    }
}

/// The value of an upper-case hexadecimal digit.
pub open spec fn hex_value(c: char) -> int {
    let n = c as u32;
    if 48 <= n <= 57 {
        n - 48
    } else {
        n - 55
    }
}

/// Percent-decoding: `%` and two hex digits give one byte, any other
/// character gives its own code.
pub open spec fn percent_decoded(s: Seq<char>) -> Seq<u8>
    decreases s.len(),
{
    if s.len() == 0 {
        Seq::empty()
    } else if s[0] == '%' && s.len() >= 3 {
        seq![(hex_value(s[1]) * 16 + hex_value(s[2])) as u8] + percent_decoded(s.skip(3))
    } else {
        seq![s[0] as u32 as u8] + percent_decoded(s.drop_first())
    }
}

proof fn lemma_percent_encoded_concat(a: Seq<u8>, b: Seq<u8>)
    ensures
        percent_encoded(a + b) == percent_encoded(a) + percent_encoded(b),
    decreases b.len(),
{
    if b.len() == 0 {
        assert(a + b =~= a);
        assert(percent_encoded(a) + percent_encoded(b) =~= percent_encoded(a));
    } else {
        assert((a + b).drop_last() =~= a + b.drop_last());
        lemma_percent_encoded_concat(a, b.drop_last());
        assert(percent_encoded(a + b) =~= percent_encoded(a) + percent_encoded(b));
    }
}

proof fn lemma_hex_upper_value(d: int)
    requires
        0 <= d < 16,
    ensures
        hex_value(hex_upper(d)) == d,
{
    let h = seq!['0', '1', '2', '3', '4', '5', '6', '7', '8', '9', 'A', 'B', 'C', 'D', 'E', 'F'];
    assert(hex_upper(d) == h[d]);
}

/// Percent-decoding gives back the bytes that were encoded.
pub proof fn lemma_percent_decoded_encoded(bytes: Seq<u8>)
    ensures
        percent_decoded(percent_encoded(bytes)) == bytes,
    decreases bytes.len(),
{
    if bytes.len() > 0 {
        let x = bytes[0];
        let rest = bytes.drop_first();
        assert(bytes =~= seq![x] + rest);
        lemma_percent_encoded_concat(seq![x], rest);
        assert(seq![x].drop_last() =~= Seq::<u8>::empty());
        assert(seq![x].last() == x);
        assert(percent_encoded(Seq::<u8>::empty()) =~= Seq::<char>::empty());
        assert(percent_encoded(seq![x]) =~= percent_encoded_byte(x));
        let piece = percent_encoded_byte(x);
        let s = piece + percent_encoded(rest);
        lemma_percent_decoded_encoded(rest);
        if is_unreserved(x) {
            assert(s[0] == x as char);
            assert(s.drop_first() =~= percent_encoded(rest));
            assert(percent_decoded(s) =~= bytes);
        } else {
            let hi = x as int / 16;
            let lo = x as int % 16;
            lemma_hex_upper_value(hi);
            lemma_hex_upper_value(lo);
            assert(hi * 16 + lo == x) by (nonlinear_arith)
                requires
                    hi == x as int / 16,
                    lo == x as int % 16,
            ;
            assert(s.skip(3) =~= percent_encoded(rest));
            assert(percent_decoded(s) =~= bytes);
        }
    }
}

/// Percent-decoding an encoded identifier gives back its UTF-8 bytes.
pub proof fn lemma_identifier_round_trip(s: Seq<char>)
    ensures
        percent_decoded(percent_encoded_text(s)) == encode_utf8(s),
{
    lemma_percent_decoded_encoded(encode_utf8(s));
}

/// The relay endpoint of a proxied data source.
pub open spec fn relay_url(proxy_id: Seq<char>, data_source_name: Seq<char>) -> Seq<char> {
    "/api/proxies/"@ + percent_encoded_text(proxy_id) + "/relay?dataSourceName="@
        + percent_encoded_text(data_source_name)
}

/// Reads a relay URL back into the bytes of its two identifiers: after
/// `/api/proxies/`, the proxy's part runs to the next `/`, and the data
/// source's part follows `/relay?dataSourceName=`; each is percent-decoded.
pub open spec fn read_relay_url(url: Seq<char>) -> Option<(Seq<u8>, Seq<u8>)> {
    let head = "/api/proxies/"@;
    let sep = "/relay?dataSourceName="@;
    if head.len() <= url.len() && url.subrange(0, head.len() as int) == head {
        let rest = url.subrange(head.len() as int, url.len() as int);
        let k = first_index_of(rest, '/');
        let after = rest.subrange(k, rest.len() as int);
        if sep.len() <= after.len() && after.subrange(0, sep.len() as int) == sep {
            Some(
                (
                    percent_decoded(rest.subrange(0, k)),
                    percent_decoded(after.subrange(sep.len() as int, after.len() as int)),
                ),
            )
        } else {
            None
        }
    } else {
        None
    }
}

/// The relay URL is read back into the UTF-8 bytes of both identifiers,
/// whatever characters they hold.
pub proof fn lemma_relay_url_round_trip(proxy_id: Seq<char>, data_source_name: Seq<char>)
    ensures
        read_relay_url(relay_url(proxy_id, data_source_name)) == Some(
            (encode_utf8(proxy_id), encode_utf8(data_source_name)),
        ),
{
    reveal_strlit("/api/proxies/");
    reveal_strlit("/relay?dataSourceName=");
    let head = "/api/proxies/"@;
    let sep = "/relay?dataSourceName="@;
    let e1 = percent_encoded_text(proxy_id);
    let e2 = percent_encoded_text(data_source_name);
    let tail = sep + e2;
    let url = relay_url(proxy_id, data_source_name);
    assert(url =~= head + (e1 + tail));
    assert(url.subrange(0, head.len() as int) =~= head);
    let rest = url.subrange(head.len() as int, url.len() as int);
    assert(rest =~= e1 + tail);
    lemma_percent_encoded_is_safe(encode_utf8(proxy_id));
    assert forall|i: int| 0 <= i < e1.len() implies e1[i] != '/' by {
        assert(is_percent_safe(e1[i]));
    }
    lemma_first_index_past_free(e1, tail, '/');
    let after = rest.subrange(e1.len() as int, rest.len() as int);
    assert(after =~= tail);
    assert(rest.subrange(0, e1.len() as int) =~= e1);
    assert(after.subrange(0, sep.len() as int) =~= sep);
    assert(after.subrange(sep.len() as int, after.len() as int) =~= e2);
    lemma_identifier_round_trip(proxy_id);
    lemma_identifier_round_trip(data_source_name);
}

/// Relies on urlencoding::encode: every byte of the UTF-8 text but ASCII
/// letters, digits and `-`, `.`, `_`, `~` becomes `%` and two upper-case hex digits.
#[verifier::external_body]
fn percent_encode(s: &str) -> (r: String)
    ensures
        r@ == percent_encoded_text(s@),
{
    urlencoding::encode(s).into_owned()
}

/// The URL that asks the proxy to relay a query to the data source; both
/// identifiers are percent-encoded on their own.
pub fn create_url(data_source: &ProxyDataSource) -> (r: String)
    ensures
        r@ == relay_url(data_source.proxy_id@, data_source.data_source_name@),
{
    let proxy_id = percent_encode(data_source.proxy_id.as_str());
    let name = percent_encode(data_source.data_source_name.as_str());
    let mut url = "/api/proxies/".to_owned();
    url.append(proxy_id.as_str());
    url.append("/relay?dataSourceName=");
    url.append(name.as_str());
    url
}

} // verus!
