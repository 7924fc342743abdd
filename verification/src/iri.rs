//! The IRIs that name revisions, items and what belongs to them.

use vstd::prelude::*;
use vstd::utf8::*;

verus! {

/// The bytes that stand for themselves in an IRI segment: ASCII letters and digits, `-`, `_`
/// and `.`.
pub open spec fn unreserved(b: u8) -> bool {
    ||| 0x30 <= b <= 0x39
    ||| 0x41 <= b <= 0x5a
    ||| 0x61 <= b <= 0x7a
    ||| b == 0x2d
    ||| b == 0x5f
    ||| b == 0x2e
}

/// The upper case hexadecimal digit of a number below sixteen.
pub open spec fn hex_digit(d: u8) -> char {
    if d < 10 {
        (48 + d) as char
    } else {
        (55 + d) as char
    }
}

/// A byte in an IRI segment: itself, or `%` and its two hexadecimal digits.
pub open spec fn segment_byte(b: u8) -> Seq<char> {
    if unreserved(b) {
        seq![b as char]
    } else {
        seq!['%', hex_digit(b / 16), hex_digit(b % 16)]
    }
}

/// Bytes in an IRI segment, one after the other.
pub open spec fn segment_bytes(bytes: Seq<u8>) -> Seq<char>
    decreases bytes.len(),
{
    if bytes.len() == 0 {
        seq![]
    } else {
        segment_byte(bytes[0]) + segment_bytes(bytes.drop_first())
    }
}

/// A string as an IRI segment: its UTF-8 bytes, or `UNKNOWN` for the empty string.
pub open spec fn segment_text(value: Seq<char>) -> Seq<char> {
    if value.len() == 0 {
        "UNKNOWN"@
    } else {
        segment_bytes(encode_utf8(value))
    }
}

/// The IRI of an item of a revision.
pub open spec fn item_iri_text(revision: Seq<char>, id: Seq<char>) -> Seq<char> {
    "urn:litho:item:"@ + segment_text(revision) + ":"@ + segment_text(id)
}

fn is_unreserved(b: u8) -> (r: bool)
    ensures
        r == unreserved(b),
{
    (b >= 0x30 && b <= 0x39) || (b >= 0x41 && b <= 0x5a) || (b >= 0x61 && b <= 0x7a) || b == 0x2d
        || b == 0x5f || b == 0x2e
}

fn hex(d: u8) -> (r: char)
    requires
        d < 16,
    ensures
        r == hex_digit(d),
{
    if d < 10 {
        (48 + d) as char
    } else {
        (55 + d) as char
    }
}

/// Writes a string as an IRI segment.
pub fn iri_segment(value: &str) -> (r: String)
    ensures
        r@ == segment_text(value@),
{
    let bytes = value.as_bytes();
    let mut out = String::new();
    let mut i: usize = 0;
    assert(bytes@.skip(0) =~= bytes@);
    assert(out@ + segment_bytes(bytes@) =~= segment_bytes(bytes@));
    while i < bytes.len()
        invariant
            i <= bytes@.len(),
            bytes@ == encode_utf8(value@),
            out@ + segment_bytes(bytes@.skip(i as int)) == segment_bytes(bytes@),
            out@.len() >= i,
        decreases bytes.len() - i,
    {
        let b: u8 = bytes[i];
        let ghost before = out@;
        if is_unreserved(b) {
            out.push(b as char);
        } else {
            out.push('%');
            out.push(hex(b / 16));
            out.push(hex(b % 16));
        }
        proof {
            let rest = bytes@.skip(i as int);
            assert(rest.drop_first() =~= bytes@.skip(i + 1));
            assert(out@ =~= before + segment_byte(b));
            assert(out@ + segment_bytes(rest.drop_first()) =~= before + (segment_byte(b)
                + segment_bytes(rest.drop_first())));
        }
        i += 1;
    }
    proof {
        assert(out@ + segment_bytes(bytes@.skip(i as int)) =~= out@);
        lemma_encoding_of_nothing(value@);
    }
    if bytes.len() == 0 {
        let mut unknown = String::new();
        unknown.push_str("UNKNOWN");
        assert(unknown@ =~= "UNKNOWN"@);
        unknown
    } else {
        out
    }
}

/// Only the empty string has no bytes.
proof fn lemma_encoding_of_nothing(value: Seq<char>)
    ensures
        encode_utf8(value).len() == 0 <==> value.len() == 0,
{
    encode_utf8_decode_utf8(value);
    if encode_utf8(value).len() == 0 {
        assert(decode_utf8(encode_utf8(value)) =~= seq![]);
    }
}

/// Writes the IRI of an item.
pub fn item_iri(revision: &str, id: &str) -> (r: String)
    ensures
        r@ == item_iri_text(revision@, id@),
{
    let mut out = String::new();
    out.push_str("urn:litho:item:");
    assert(out@ =~= "urn:litho:item:"@);
    out.push_str(iri_segment(revision).as_str());
    out.push_str(":");
    out.push_str(iri_segment(id).as_str());
    out
}

/// The characters of an IRI segment: ASCII letters and digits, `-`, `_`, `.` and `%`.
pub open spec fn is_segment_char(c: char) -> bool {
    ||| '0' <= c <= '9'
    ||| 'A' <= c <= 'Z'
    ||| 'a' <= c <= 'z'
    ||| c == '-'
    ||| c == '_'
    ||| c == '.'
    ||| c == '%'
}

/// The number that a hexadecimal digit stands for.
pub open spec fn hex_value(c: char) -> u8 {
    if c <= '9' {
        (c as u8 - 48) as u8
    } else {
        (c as u8 - 55) as u8
    }
}

/// The bytes that an IRI segment stands for.
pub open spec fn percent_decoded(segment: Seq<char>) -> Seq<u8>
    decreases segment.len(),
{
    if segment.len() == 0 {
        seq![]
    } else if segment[0] == '%' && segment.len() >= 3 {
        seq![(hex_value(segment[1]) * 16 + hex_value(segment[2])) as u8] + percent_decoded(
            segment.skip(3),
        )
    } else {
        seq![segment[0] as u8] + percent_decoded(segment.skip(1))
    }
}

proof fn lemma_segment_bytes_safe(bytes: Seq<u8>)
    ensures
        forall|i: int|
            0 <= i < segment_bytes(bytes).len() ==> is_segment_char(
                #[trigger] segment_bytes(bytes)[i],
            ),
        segment_bytes(bytes).len() >= bytes.len(),
    decreases bytes.len(),
{
    if bytes.len() > 0 {
        let first = segment_byte(bytes[0]);
        let rest = segment_bytes(bytes.drop_first());
        lemma_segment_bytes_safe(bytes.drop_first());
        assert forall|i: int| 0 <= i < segment_bytes(bytes).len() implies is_segment_char(
            #[trigger] segment_bytes(bytes)[i],
        ) by {
            if i >= first.len() {
                assert(segment_bytes(bytes)[i] == rest[i - first.len()]);
            }
        }
    }
}

proof fn lemma_segment_bytes_decode(bytes: Seq<u8>)
    ensures
        percent_decoded(segment_bytes(bytes)) == bytes,
    decreases bytes.len(),
{
    if bytes.len() > 0 {
        let b = bytes[0];
        let first = segment_byte(b);
        let rest = segment_bytes(bytes.drop_first());
        lemma_segment_bytes_decode(bytes.drop_first());
        assert((first + rest).skip(first.len() as int) =~= rest);
        assert((first + rest)[0] == first[0]);
        if !unreserved(b) {
            assert((first + rest)[1] == first[1]);
            assert((first + rest)[2] == first[2]);
            assert(hex_value(hex_digit(b / 16)) == b / 16);
            assert(hex_value(hex_digit(b % 16)) == b % 16);
        }
        assert(percent_decoded(first + rest) =~= seq![b] + bytes.drop_first());
        assert(seq![b] + bytes.drop_first() =~= bytes);
    } else {
        assert(bytes =~= seq![]);
    }
}

/// An IRI segment is never empty and holds no character that would end or break an IRI.
pub proof fn law_segment_safe(value: Seq<char>)
    ensures
        segment_text(value).len() > 0,
        forall|i: int|
            0 <= i < segment_text(value).len() ==> is_segment_char(
                #[trigger] segment_text(value)[i],
            ),
{
    reveal_strlit("UNKNOWN");
    lemma_encoding_of_nothing(value);
    lemma_segment_bytes_safe(encode_utf8(value));
}

/// Percent-decoding the segment of a string that is not empty gives back its UTF-8 bytes.
pub proof fn law_segment_decodes(value: Seq<char>)
    requires
        value.len() > 0,
    ensures
        percent_decoded(segment_text(value)) == encode_utf8(value),
{
    lemma_segment_bytes_decode(encode_utf8(value));
}

proof fn lemma_segment_bytes_join(a: Seq<u8>, b: Seq<u8>)
    ensures
        segment_bytes(a + b) == segment_bytes(a) + segment_bytes(b),
    decreases a.len(),
{
    if a.len() == 0 {
        assert(a + b =~= b);
        assert(segment_bytes(a) + segment_bytes(b) =~= segment_bytes(b));
    } else {
        lemma_segment_bytes_join(a.drop_first(), b);
        assert((a + b).drop_first() =~= a.drop_first() + b);
        assert((a + b)[0] == a[0]);
        assert(segment_bytes(a + b) =~= segment_bytes(a) + segment_bytes(b));
    }
}

proof fn lemma_encode_utf8_join(a: Seq<char>, b: Seq<char>)
    ensures
        encode_utf8(a + b) == encode_utf8(a) + encode_utf8(b),
    decreases a.len(),
{
    if a.len() == 0 {
        assert(a + b =~= b);
        assert(encode_utf8(a) + encode_utf8(b) =~= encode_utf8(b));
    } else {
        lemma_encode_utf8_join(a.drop_first(), b);
        assert((a + b).drop_first() =~= a.drop_first() + b);
        assert((a + b)[0] == a[0]);
        assert(encode_utf8(a + b) =~= encode_utf8(a) + encode_utf8(b));
    }
}

/// The segment of two strings joined, neither of them empty, is their segments joined.
pub proof fn law_segments_join(a: Seq<char>, b: Seq<char>)
    requires
        a.len() > 0,
        b.len() > 0,
    ensures
        segment_text(a + b) == segment_text(a) + segment_text(b),
{
    lemma_encode_utf8_join(a, b);
    lemma_segment_bytes_join(encode_utf8(a), encode_utf8(b));
}

/// Different strings have different segments, the empty string aside.
pub proof fn law_segment_injective(a: Seq<char>, b: Seq<char>)
    requires
        a.len() > 0,
        b.len() > 0,
        segment_text(a) == segment_text(b),
    ensures
        a == b,
{
    law_segment_decodes(a);
    law_segment_decodes(b);
    encode_utf8_decode_utf8(a);
    encode_utf8_decode_utf8(b);
}

/// An item's IRI holds only the characters of its segments and colons.
pub proof fn law_item_iri_safe(revision: Seq<char>, id: Seq<char>)
    ensures
        forall|i: int|
            0 <= i < item_iri_text(revision, id).len() ==> {
                let c = #[trigger] item_iri_text(revision, id)[i];
                is_segment_char(c) || c == ':'
            },
{
    let scheme = "urn:litho:item:"@;
    reveal_strlit("urn:litho:item:");
    reveal_strlit(":");
    law_segment_safe(revision);
    law_segment_safe(id);
    let a = scheme + segment_text(revision);
    let b = a + ":"@;
    assert forall|i: int| 0 <= i < item_iri_text(revision, id).len() implies {
        let c = #[trigger] item_iri_text(revision, id)[i];
        is_segment_char(c) || c == ':'
    } by {
        let c = item_iri_text(revision, id)[i];
        if i >= b.len() {
            assert(c == segment_text(id)[i - b.len()]);
        } else if i >= a.len() {
            assert(c == ":"@[i - a.len()]);
        } else if i >= scheme.len() {
            assert(c == segment_text(revision)[i - scheme.len()]);
        } else {
            assert(c == scheme[i]);
        }
    }
}

proof fn lemma_split_at_colon(a: Seq<char>, b: Seq<char>, c: Seq<char>, d: Seq<char>)
    requires
        a + seq![':'] + b == c + seq![':'] + d,
        forall|i: int| 0 <= i < a.len() ==> #[trigger] a[i] != ':',
        forall|i: int| 0 <= i < c.len() ==> #[trigger] c[i] != ':',
    ensures
        a == c,
        b == d,
{
    let x = a + seq![':'] + b;
    let y = c + seq![':'] + d;
    assert(x[a.len() as int] == ':');
    assert(y[c.len() as int] == ':');
    if a.len() < c.len() {
        assert(y[a.len() as int] == c[a.len() as int]);
    }
    if c.len() < a.len() {
        assert(x[c.len() as int] == a[c.len() as int]);
    }
    assert(a =~= x.take(a.len() as int));
    assert(c =~= y.take(a.len() as int));
    assert(b =~= x.skip(a.len() as int + 1));
    assert(d =~= y.skip(a.len() as int + 1));
}

/// Two items have the same IRI only where their revisions and their ids agree, empty ones aside.
pub proof fn law_item_iri_injective(
    revision: Seq<char>,
    id: Seq<char>,
    other_revision: Seq<char>,
    other_id: Seq<char>,
)
    requires
        revision.len() > 0,
        id.len() > 0,
        other_revision.len() > 0,
        other_id.len() > 0,
        item_iri_text(revision, id) == item_iri_text(other_revision, other_id),
    ensures
        revision == other_revision,
        id == other_id,
{
    let scheme = "urn:litho:item:"@;
    reveal_strlit(":");
    assert(":"@ =~= seq![':']);
    law_segment_safe(revision);
    law_segment_safe(other_revision);
    let x = segment_text(revision) + seq![':'] + segment_text(id);
    let y = segment_text(other_revision) + seq![':'] + segment_text(other_id);
    assert(item_iri_text(revision, id).skip(scheme.len() as int) =~= x);
    assert(item_iri_text(other_revision, other_id).skip(scheme.len() as int) =~= y);
    lemma_split_at_colon(
        segment_text(revision),
        segment_text(id),
        segment_text(other_revision),
        segment_text(other_id),
    );
    law_segment_injective(revision, other_revision);
    law_segment_injective(id, other_id);
}

/// A string of ASCII letters and digits, `-`, `_` and `.` that is not empty is its own segment.
pub proof fn law_plain_segment(value: Seq<char>)
    requires
        value.len() > 0,
        forall|i: int|
            0 <= i < value.len() ==> {
                let c = #[trigger] value[i];
                'a' <= c <= 'z' || 'A' <= c <= 'Z' || '0' <= c <= '9' || c == '-' || c == '_' || c
                    == '.'
            },
    ensures
        segment_text(value) == value,
{
    lemma_plain_bytes(value);
}

proof fn lemma_plain_bytes(value: Seq<char>)
    requires
        forall|i: int|
            0 <= i < value.len() ==> {
                let c = #[trigger] value[i];
                'a' <= c <= 'z' || 'A' <= c <= 'Z' || '0' <= c <= '9' || c == '-' || c == '_' || c
                    == '.'
            },
    ensures
        segment_bytes(encode_utf8(value)) == value,
    decreases value.len(),
{
    if value.len() == 0 {
        assert(value =~= seq![]);
    } else {
        let c = value[0];
        let rest = value.drop_first();
        assert forall|i: int| 0 <= i < rest.len() implies {
            let c = #[trigger] rest[i];
            'a' <= c <= 'z' || 'A' <= c <= 'Z' || '0' <= c <= '9' || c == '-' || c == '_' || c
                == '.'
        } by {
            assert(rest[i] == value[i + 1]);
        }
        lemma_plain_bytes(rest);
        assert(value =~= seq![c] + rest);
        lemma_encode_utf8_join(seq![c], rest);
        assert(is_ascii_chars(seq![c]));
        is_ascii_chars_encode_utf8(seq![c]);
        assert(seq![c][0] as u8 == encode_utf8(seq![c])[0]);
        assert(encode_utf8(seq![c]) =~= seq![c as u8]);
        lemma_segment_bytes_join(seq![c as u8], encode_utf8(rest));
        reveal_with_fuel(segment_bytes, 2);
        assert(seq![c as u8].drop_first() =~= seq![]);
        assert(segment_bytes(seq![c as u8]) =~= seq![c]);
    }
}

/// The name says, behind its prefix, the given text, percent-encoded.
pub open spec fn names(name: Seq<char>, prefix: Seq<char>, value: Seq<char>) -> bool {
    &&& name.len() >= prefix.len()
    &&& name.take(prefix.len() as int) == prefix
    &&& percent_decoded(name.skip(prefix.len() as int)) == encode_utf8(value)
}

/// A prefix and a segment say what the segment says.
pub proof fn lemma_names(prefix: Seq<char>, value: Seq<char>)
    requires
        value.len() > 0,
    ensures
        names(prefix + segment_text(value), prefix, value),
{
    law_segment_decodes(value);
    let name = prefix + segment_text(value);
    assert(name.take(prefix.len() as int) =~= prefix);
    assert(name.skip(prefix.len() as int) =~= segment_text(value));
}

/// An item's IRI says the revision first and the id behind it, each percent-encoded, with a
/// colon between them.
pub proof fn law_item_iri_reads_back(revision: Seq<char>, id: Seq<char>)
    requires
        revision.len() > 0,
        id.len() > 0,
    ensures
        exists|head: Seq<char>| #[trigger]
            names(head, "urn:litho:item:"@, revision) && names(
                item_iri_text(revision, id),
                head + ":"@,
                id,
            ),
{
    let head = "urn:litho:item:"@ + segment_text(revision);
    lemma_names("urn:litho:item:"@, revision);
    lemma_names(head + ":"@, id);
}

} // verus!
