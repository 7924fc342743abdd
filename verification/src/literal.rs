//! String literals of the graph.

use vstd::prelude::*;

verus! {

/// The control characters: the general category `Cc` of Unicode.
pub open spec fn is_control(c: char) -> bool {
    c as u32 <= 0x1f || 0x7f <= c as u32 <= 0x9f
}

/// A character inside a literal.
pub open spec fn escape(c: char) -> Seq<char> {
    if c == '\\' {
        seq!['\\', '\\']
    } else if c == '"' {
        seq!['\\', '"']
    } else if c == '\n' {
        seq!['\\', 'n']
    } else if c == '\r' {
        seq!['\\', 'r']
    } else if c == '\t' {
        seq!['\\', 't']
    } else if is_control(c) {
        seq![' ']
    } else {
        seq![c]
    }
}

/// Text inside a literal, one character after the other.
pub open spec fn escaped(value: Seq<char>) -> Seq<char>
    decreases value.len(),
{
    if value.len() == 0 {
        seq![]
    } else {
        escape(value[0]) + escaped(value.drop_first())
    }
}

/// Text as a literal: in double quotes, escaped.
pub open spec fn literal_text(value: Seq<char>) -> Seq<char> {
    seq!['"'] + escaped(value) + seq!['"']
}

/// Writes text as a literal.
pub fn literal(value: &str) -> (r: String)
    ensures
        r@ == literal_text(value@),
{
    let mut out = String::new();
    out.push('"');
    let ghost quote = seq!['"'];
    assert(out@ =~= quote);
    assert(value@.skip(0) =~= value@);
    for c in it: value.chars()
        invariant
            it.seq() == value@,
            quote == seq!['"'],
            out@ + escaped(value@.skip(it.index() as int)) == quote + escaped(value@),
    {
        let ghost before = out@;
        let ghost rest = value@.skip(it.index() as int);
        let code: u32 = c as u32;
        if c == '\\' {
            out.push_str("\\\\");
        } else if c == '"' {
            out.push_str("\\\"");
        } else if c == '\n' {
            out.push_str("\\n");
        } else if c == '\r' {
            out.push_str("\\r");
        } else if c == '\t' {
            out.push_str("\\t");
        } else if code <= 0x1f || (code >= 0x7f && code <= 0x9f) {
            out.push(' ');
        } else {
            out.push(c);
        }
        proof {
            reveal_strlit("\\\\");
            reveal_strlit("\\\"");
            reveal_strlit("\\n");
            reveal_strlit("\\r");
            reveal_strlit("\\t");
            assert(rest[0] == c);
            assert(out@ =~= before + escape(c));
            assert(rest.drop_first() =~= value@.skip(it.index() + 1));
            assert(out@ + escaped(rest.drop_first()) =~= before + (escape(c) + escaped(
                rest.drop_first(),
            )));
        }
    }
    proof {
        assert(value@.skip(value@.len() as int) =~= seq![]);
        assert(out@ + escaped(value@.skip(value@.len() as int)) =~= out@);
    }
    out.push('"');
    assert(out@ =~= literal_text(value@));
    out
}

/// What a literal can hold of a character: a control character other than a line feed, a
/// carriage return or a tab becomes a space.
pub open spec fn blanked(c: char) -> char {
    if is_control(c) && c != '\n' && c != '\r' && c != '\t' {
        ' '
    } else {
        c
    }
}

/// The character that an escape sequence stands for.
pub open spec fn unescape(c: char) -> Option<char> {
    if c == '\\' || c == '"' {
        Some(c)
    } else if c == 'n' {
        Some('\n')
    } else if c == 'r' {
        Some('\r')
    } else if c == 't' {
        Some('\t')
    } else {
        None
    }
}

/// Reads on in a literal up to its closing quote: gives what it says and what follows it.
pub open spec fn read_quoted(input: Seq<char>) -> Option<(Seq<char>, Seq<char>)>
    decreases input.len(),
{
    if input.len() == 0 || is_control(input[0]) {
        None
    } else if input[0] == '"' {
        Some((seq![], input.skip(1)))
    } else if input[0] == '\\' {
        if input.len() < 2 || unescape(input[1]) is None {
            None
        } else {
            match read_quoted(input.skip(2)) {
                Some((value, rest)) => Some((seq![unescape(input[1])->0] + value, rest)),
                None => None,
            }
        }
    } else {
        match read_quoted(input.skip(1)) {
            Some((value, rest)) => Some((seq![input[0]] + value, rest)),
            None => None,
        }
    }
}

/// Reads a literal: gives what it says and what follows it.
pub open spec fn read_literal(input: Seq<char>) -> Option<(Seq<char>, Seq<char>)> {
    if input.len() > 0 && input[0] == '"' {
        read_quoted(input.skip(1))
    } else {
        None
    }
}

proof fn lemma_read_escaped(value: Seq<char>, rest: Seq<char>)
    ensures
        read_quoted(escaped(value) + seq!['"'] + rest) == Some(
            (value.map_values(|c: char| blanked(c)), rest),
        ),
    decreases value.len(),
{
    let input = escaped(value) + seq!['"'] + rest;
    if value.len() == 0 {
        assert(input[0] == '"');
        assert(input.skip(1) =~= rest);
        assert(value.map_values(|c: char| blanked(c)) =~= seq![]);
    } else {
        let c = value[0];
        let tail = value.drop_first();
        let next = escaped(tail) + seq!['"'] + rest;
        lemma_read_escaped(tail, rest);
        assert(input =~= escape(c) + next);
        assert(input.skip(escape(c).len() as int) =~= next);
        assert(input[0] == escape(c)[0]);
        if escape(c).len() == 2 {
            assert(input[1] == escape(c)[1]);
        }
        assert(value.map_values(|c: char| blanked(c)) =~= seq![blanked(c)] + tail.map_values(
            |c: char| blanked(c),
        ));
    }
}

/// A literal ends where it is meant to, whatever follows it, and reads back as the text that
/// was written, with a space for each control character other than a line feed, a carriage
/// return or a tab.
pub proof fn law_literal_reads_back(value: Seq<char>, rest: Seq<char>)
    ensures
        read_literal(literal_text(value) + rest) == Some(
            (value.map_values(|c: char| blanked(c)), rest),
        ),
{
    let input = literal_text(value) + rest;
    assert(input[0] == '"');
    assert(input.skip(1) =~= escaped(value) + seq!['"'] + rest);
    lemma_read_escaped(value, rest);
}

/// A text without control characters other than line feeds, carriage returns and tabs reads
/// back unchanged.
pub proof fn law_literal_lossless(value: Seq<char>, rest: Seq<char>)
    requires
        forall|i: int| 0 <= i < value.len() ==> blanked(#[trigger] value[i]) == value[i],
    ensures
        read_literal(literal_text(value) + rest) == Some((value, rest)),
{
    law_literal_reads_back(value, rest);
    assert(value.map_values(|c: char| blanked(c)) =~= value);
}

proof fn lemma_escaped_has_no_control(value: Seq<char>)
    ensures
        forall|i: int| 0 <= i < escaped(value).len() ==> !is_control(#[trigger] escaped(value)[i]),
    decreases value.len(),
{
    if value.len() > 0 {
        lemma_escaped_has_no_control(value.drop_first());
        let first = escape(value[0]);
        assert forall|i: int| 0 <= i < escaped(value).len() implies !is_control(
            #[trigger] escaped(value)[i],
        ) by {
            if i >= first.len() {
                assert(escaped(value)[i] == escaped(value.drop_first())[i - first.len()]);
            } else {
                assert(escaped(value)[i] == first[i]);
            }
        }
    }
}

/// A literal holds no control character, so it stays on its line.
pub proof fn law_literal_on_one_line(value: Seq<char>)
    ensures
        forall|i: int|
            0 <= i < literal_text(value).len() ==> !is_control(#[trigger] literal_text(value)[i]),
{
    lemma_escaped_has_no_control(value);
    assert forall|i: int| 0 <= i < literal_text(value).len() implies !is_control(
        #[trigger] literal_text(value)[i],
    ) by {
        if 0 < i < literal_text(value).len() - 1 {
            assert(literal_text(value)[i] == escaped(value)[i - 1]);
        }
    }
}

} // verus!
