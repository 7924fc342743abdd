//! What a reader learns from a graph: its text is read into tokens, its tokens into triples.

use crate::graph;
use crate::iri;
use crate::json;
use crate::json::{Json, JsonTree};
use crate::lexical::Place;
use crate::literal;
use crate::order;
use crate::rustdoc;
use crate::text;
use vstd::prelude::*;

verus! {

/// What a TriG text is made of: IRIs and literals, each by what it says, words, and the marks
/// between them.
pub enum Token {
    Iri(Seq<char>),
    Literal(Seq<char>),
    Word(Seq<char>),
    Mark(char),
}

/// A reader: where it stands, what it has read of the token there, and the tokens before.
pub struct Reader {
    pub place: Place,
    pub part: Seq<char>,
    pub tokens: Seq<Token>,
}

/// The tokens, with the word that was being read.
pub open spec fn with_word(reader: Reader) -> Seq<Token> {
    if reader.place is Outside && reader.part.len() > 0 {
        reader.tokens.push(Token::Word(reader.part))
    } else {
        reader.tokens
    }
}

/// Reads one character.
pub open spec fn read_char(reader: Reader, c: char) -> Reader {
    match reader.place {
        Place::Outside => if c == '<' {
            Reader { place: Place::Iri, part: seq![], tokens: with_word(reader) }
        } else if c == '"' {
            Reader { place: Place::Literal, part: seq![], tokens: with_word(reader) }
        } else if c == ' ' || c == '\n' {
            Reader { place: Place::Outside, part: seq![], tokens: with_word(reader) }
        } else if c == ',' || c == ';' || c == '.' || c == '{' || c == '}' {
            Reader {
                place: Place::Outside,
                part: seq![],
                tokens: with_word(reader).push(Token::Mark(c)),
            }
        } else {
            Reader { part: reader.part.push(c), ..reader }
        },
        Place::Iri => if c == '>' {
            Reader {
                place: Place::Outside,
                part: seq![],
                tokens: reader.tokens.push(Token::Iri(reader.part)),
            }
        } else {
            Reader { part: reader.part.push(c), ..reader }
        },
        Place::Literal => if c == '"' {
            Reader {
                place: Place::Outside,
                part: seq![],
                tokens: reader.tokens.push(Token::Literal(reader.part)),
            }
        } else if c == '\\' {
            Reader { place: Place::Escape, ..reader }
        } else {
            Reader { part: reader.part.push(c), ..reader }
        },
        Place::Escape => Reader {
            place: Place::Literal,
            part: reader.part.push(literal::unescape(c)->0),
            ..reader
        },
    }
}

/// Reads the first `n` characters of a text.
pub open spec fn read(reader: Reader, text: Seq<char>, n: int) -> Reader
    decreases n,
{
    if n <= 0 {
        reader
    } else {
        read_char(read(reader, text, n - 1), text[n - 1])
    }
}

/// A reader that has read nothing yet.
pub open spec fn reader() -> Reader {
    Reader { place: Place::Outside, part: seq![], tokens: seq![] }
}

/// The tokens of a text.
pub open spec fn tokens_of(text: Seq<char>) -> Seq<Token> {
    with_word(read(reader(), text, text.len() as int))
}

/// What a graph says: of a subject, by a predicate, an object.
pub struct Triple {
    pub subject: Token,
    pub predicate: Token,
    pub object: Token,
}

/// A listener: the subject and the predicate that are spoken of, and the triples so far.
pub struct Listener {
    pub subject: Option<Token>,
    pub predicate: Option<Token>,
    pub triples: Seq<Triple>,
}

/// Takes one token: `,` goes on with another object, `;` with another predicate, any other mark
/// ends the statement.
pub open spec fn hear_token(listener: Listener, token: Token) -> Listener {
    match token {
        Token::Mark(c) => if c == ',' {
            listener
        } else if c == ';' {
            Listener { predicate: None, ..listener }
        } else {
            Listener { subject: None, predicate: None, ..listener }
        },
        _ => match (listener.subject, listener.predicate) {
            (None, _) => Listener { subject: Some(token), ..listener },
            (Some(_), None) => Listener { predicate: Some(token), ..listener },
            (Some(subject), Some(predicate)) => Listener {
                triples: listener.triples.push(Triple { subject, predicate, object: token }),
                ..listener
            },
        },
    }
}

/// Takes the first `n` tokens.
pub open spec fn hear(listener: Listener, tokens: Seq<Token>, n: int) -> Listener
    decreases n,
{
    if n <= 0 {
        listener
    } else {
        hear_token(hear(listener, tokens, n - 1), tokens[n - 1])
    }
}

/// A listener that has heard nothing yet.
pub open spec fn listener() -> Listener {
    Listener { subject: None, predicate: None, triples: seq![] }
}

/// The triples of a text.
pub open spec fn triples_of(text: Seq<char>) -> Seq<Triple> {
    let tokens = tokens_of(text);
    hear(listener(), tokens, tokens.len() as int).triples
}

/// What a literal can hold of a text: control characters other than line feeds, carriage returns
/// and tabs become spaces.
pub open spec fn blanked_text(value: Seq<char>) -> Seq<char> {
    value.map_values(|c: char| literal::blanked(c))
}

/// A triple of an IRI, a word and an object.
pub open spec fn about(subject: Seq<char>, predicate: Seq<char>, object: Token) -> Triple {
    Triple { subject: Token::Iri(subject), predicate: Token::Word(predicate), object }
}

// Reading piece by piece.

spec fn fresh(place: Place, part: Seq<char>) -> Reader {
    Reader { place, part, tokens: seq![] }
}

/// From a place with a part of a token read there, the text gives these tokens and leads to
/// another place, with a part of a token read there.
#[verifier::opaque]
spec fn gives(
    from: Place,
    part: Seq<char>,
    text: Seq<char>,
    tokens: Seq<Token>,
    to: Place,
    rest: Seq<char>,
) -> bool {
    read(fresh(from, part), text, text.len() as int) == (Reader { place: to, part: rest, tokens })
}

/// Tokens read before do not matter to what is read next.
proof fn lemma_read_shift(r: Reader, text: Seq<char>, n: int)
    ensures
        ({
            let a = read(r, text, n);
            let b = read(fresh(r.place, r.part), text, n);
            a.place == b.place && a.part == b.part && a.tokens == r.tokens + b.tokens
        }),
    decreases n,
{
    if n <= 0 {
        assert(r.tokens + Seq::<Token>::empty() =~= r.tokens);
    } else {
        lemma_read_shift(r, text, n - 1);
        let a = read(r, text, n - 1);
        let b = read(fresh(r.place, r.part), text, n - 1);
        let c = text[n - 1];
        assert(with_word(a) =~= r.tokens + with_word(b));
        assert(read_char(a, c).tokens =~= r.tokens + read_char(b, c).tokens);
    }
}

proof fn lemma_read_join(r: Reader, a: Seq<char>, b: Seq<char>, n: int)
    requires
        0 <= n <= a.len() + b.len(),
    ensures
        n <= a.len() ==> read(r, a + b, n) == read(r, a, n),
        n >= a.len() ==> read(r, a + b, n) == read(read(r, a, a.len() as int), b, n - a.len()),
    decreases n,
{
    if n > 0 {
        lemma_read_join(r, a, b, n - 1);
        if n <= a.len() {
            assert((a + b)[n - 1] == a[n - 1]);
        } else {
            assert((a + b)[n - 1] == b[n - 1 - a.len()]);
        }
    }
}

broadcast proof fn lemma_gives_join(
    from: Place,
    part: Seq<char>,
    a: Seq<char>,
    x: Seq<Token>,
    mid: Place,
    rest: Seq<char>,
    b: Seq<char>,
    y: Seq<Token>,
    to: Place,
    last: Seq<char>,
)
    requires
        #[trigger] gives(from, part, a, x, mid, rest),
        #[trigger] gives(mid, rest, b, y, to, last),
    ensures
        gives(from, part, #[trigger] (a + b), x + y, to, last),
{
    reveal(gives);
    lemma_read_join(fresh(from, part), a, b, (a + b).len() as int);
    lemma_read_shift(read(fresh(from, part), a, a.len() as int), b, b.len() as int);
}

proof fn lemma_nothing_gives(place: Place, part: Seq<char>)
    ensures
        gives(place, part, seq![], seq![], place, part),
{
    reveal(gives);
}

// Constant words, read against the tokens that they are to give.

/// What a token says.
spec fn content(token: Token) -> Seq<char> {
    match token {
        Token::Iri(s) => s,
        Token::Literal(s) => s,
        Token::Word(s) => s,
        Token::Mark(c) => seq![c],
    }
}

/// The token there, of the given sort, is read to its end.
spec fn ended(out: Seq<Token>, j: int, m: int) -> bool {
    j < out.len() && m == content(out[j]).len()
}

/// A word that was begun is read to its end.
spec fn word_ended(out: Seq<Token>, j: int, m: int) -> bool {
    m == 0 || ended(out, j, m) && out[j] is Word
}

/// The next character of the token there.
spec fn goes_on(out: Seq<Token>, j: int, m: int, c: char) -> bool {
    j < out.len() && m < content(out[j]).len() && content(out[j])[m] == c
}

/// From a position on, the text gives the tokens from `j` on, of the first of which `m`
/// characters are read, and leads to the given place with nothing of a token read.
spec fn yields(
    place: Place,
    m: int,
    text: Seq<char>,
    k: int,
    out: Seq<Token>,
    j: int,
    to: Place,
) -> bool
    decreases text.len() - k,
{
    if k >= text.len() {
        place == to && m == 0 && j == out.len()
    } else {
        let c = text[k];
        let after = if m > 0 {
            j + 1
        } else {
            j
        };
        match place {
            Place::Outside => if c == '<' {
                word_ended(out, j, m) && yields(Place::Iri, 0, text, k + 1, out, after, to)
            } else if c == '"' {
                word_ended(out, j, m) && yields(Place::Literal, 0, text, k + 1, out, after, to)
            } else if c == ' ' || c == '\n' {
                word_ended(out, j, m) && yields(Place::Outside, 0, text, k + 1, out, after, to)
            } else if c == ',' || c == ';' || c == '.' || c == '{' || c == '}' {
                word_ended(out, j, m) && after < out.len() && out[after] == Token::Mark(c)
                    && yields(Place::Outside, 0, text, k + 1, out, after + 1, to)
            } else {
                goes_on(out, j, m, c) && out[j] is Word && yields(
                    Place::Outside,
                    m + 1,
                    text,
                    k + 1,
                    out,
                    j,
                    to,
                )
            },
            Place::Iri => if c == '>' {
                ended(out, j, m) && out[j] is Iri && yields(
                    Place::Outside,
                    0,
                    text,
                    k + 1,
                    out,
                    j + 1,
                    to,
                )
            } else {
                goes_on(out, j, m, c) && yields(Place::Iri, m + 1, text, k + 1, out, j, to)
            },
            Place::Literal => if c == '"' {
                ended(out, j, m) && out[j] is Literal && yields(
                    Place::Outside,
                    0,
                    text,
                    k + 1,
                    out,
                    j + 1,
                    to,
                )
            } else {
                c != '\\' && goes_on(out, j, m, c) && yields(
                    Place::Literal,
                    m + 1,
                    text,
                    k + 1,
                    out,
                    j,
                    to,
                )
            },
            Place::Escape => false,
        }
    }
}

/// What a reader holds that has read `m` characters of the token at `j`.
spec fn holds(r: Reader, place: Place, m: int, out: Seq<Token>, j: int) -> bool {
    &&& 0 <= j <= out.len()
    &&& r.place == place
    &&& r.tokens == out.take(j)
    &&& 0 <= m
    &&& m > 0 ==> j < out.len() && m <= content(out[j]).len()
    &&& r.part == if m > 0 {
        content(out[j]).take(m)
    } else {
        seq![]
    }
}

proof fn lemma_yields(
    start: Reader,
    place: Place,
    m: int,
    text: Seq<char>,
    k: int,
    out: Seq<Token>,
    j: int,
    to: Place,
)
    requires
        0 <= k <= text.len(),
        holds(read(start, text, k), place, m, out, j),
        yields(place, m, text, k, out, j, to),
    ensures
        read(start, text, text.len() as int) == (Reader { place: to, part: seq![], tokens: out }),
    decreases text.len() - k,
{
    let r = read(start, text, k);
    if k == text.len() {
        assert(out.take(j) =~= out);
    } else {
        let c = text[k];
        let s = read(start, text, k + 1);
        let after = if m > 0 {
            j + 1
        } else {
            j
        };
        assert(s == read_char(r, c));
        if j < out.len() {
            assert(content(out[j]).take(content(out[j]).len() as int) =~= content(out[j]));
            assert(out.take(j).push(out[j]) =~= out.take(j + 1));
        }
        if after < out.len() {
            assert(out.take(after).push(out[after]) =~= out.take(after + 1));
        }
        let plain = match place {
            Place::Outside => !(c == '<' || c == '"' || c == ' ' || c == '\n' || c == ',' || c
                == ';' || c == '.' || c == '{' || c == '}'),
            Place::Iri => c != '>',
            _ => c != '"',
        };
        if plain {
            if m == 0 {
                assert(seq![].push(c) =~= content(out[j]).take(1));
            } else {
                assert(content(out[j]).take(m).push(c) =~= content(out[j]).take(m + 1));
            }
            lemma_yields(start, place, m + 1, text, k + 1, out, j, to);
        } else if place is Outside {
            if c == '<' {
                lemma_yields(start, Place::Iri, 0, text, k + 1, out, after, to);
            } else if c == '"' {
                lemma_yields(start, Place::Literal, 0, text, k + 1, out, after, to);
            } else if c == ' ' || c == '\n' {
                lemma_yields(start, Place::Outside, 0, text, k + 1, out, after, to);
            } else {
                lemma_yields(start, Place::Outside, 0, text, k + 1, out, after + 1, to);
            }
        } else {
            assert(r.part =~= content(out[j]));
            lemma_yields(start, Place::Outside, 0, text, k + 1, out, j + 1, to);
        }
    }
}

proof fn lemma_yields_gives(from: Place, text: Seq<char>, out: Seq<Token>, to: Place)
    requires
        yields(from, 0, text, 0, out, 0, to),
    ensures
        gives(from, seq![], text, out, to, seq![]),
{
    reveal(gives);
    assert(out.take(0) =~= seq![]);
    lemma_yields(fresh(from, seq![]), from, 0, text, 0, out, 0, to);
}

/// Words that begin by ending what was read before them.
proof fn lemma_yields_ending(from: Place, part: Seq<char>, text: Seq<char>, out: Seq<Token>, to: Place)
    requires
        out.len() > 0,
        content(out[0]) == part,
        yields(from, part.len() as int, text, 0, out, 0, to),
    ensures
        gives(from, part, text, out, to, seq![]),
{
    reveal(gives);
    assert(out.take(0) =~= seq![]);
    assert(part.take(part.len() as int) =~= part);
    assert(part.len() == 0 ==> part =~= seq![]);
    lemma_yields(fresh(from, part), from, part.len() as int, text, 0, out, 0, to);
}

// Values.

proof fn lemma_iri_read(text: Seq<char>, n: int)
    requires
        0 <= n <= text.len(),
        forall|i: int| 0 <= i < text.len() ==> #[trigger] text[i] != '>',
    ensures
        read(fresh(Place::Iri, seq![]), text, n) == fresh(Place::Iri, text.take(n)),
    decreases n,
{
    if n > 0 {
        lemma_iri_read(text, n - 1);
        assert(text.take(n - 1).push(text[n - 1]) =~= text.take(n));
    } else {
        assert(text.take(0) =~= seq![]);
    }
}

/// The text stays inside an IRI.
spec fn within_iri(text: Seq<char>) -> bool {
    forall|i: int| 0 <= i < text.len() ==> #[trigger] text[i] != '>'
}

proof fn lemma_within_iri_join(a: Seq<char>, b: Seq<char>)
    requires
        within_iri(a),
        within_iri(b),
    ensures
        within_iri(a + b),
{
    assert forall|i: int| 0 <= i < (a + b).len() implies #[trigger] (a + b)[i] != '>' by {
        if i < a.len() {
            assert((a + b)[i] == a[i]);
        } else {
            assert((a + b)[i] == b[i - a.len()]);
        }
    }
}

proof fn lemma_iri_gives(text: Seq<char>)
    requires
        within_iri(text),
    ensures
        gives(Place::Iri, seq![], text, seq![], Place::Iri, text),
{
    reveal(gives);
    lemma_iri_read(text, text.len() as int);
    assert(text.take(text.len() as int) =~= text);
}

proof fn lemma_escaped_read(value: Seq<char>, n: int)
    requires
        0 <= n <= value.len(),
    ensures
        gives(
            Place::Literal,
            blanked_text(value.take(n)),
            literal::escaped(value.skip(n)),
            seq![],
            Place::Literal,
            blanked_text(value),
        ),
    decreases value.len() - n,
{
    let rest = value.skip(n);
    let before = blanked_text(value.take(n));
    if n == value.len() {
        lemma_nothing_gives(Place::Literal, before);
        assert(value.take(n) =~= value);
    } else {
        let c = value[n];
        let after = blanked_text(value.take(n + 1));
        lemma_escaped_read(value, n + 1);
        assert(after =~= before.push(literal::blanked(c)));
        assert(rest.drop_first() =~= value.skip(n + 1));
        assert(gives(Place::Literal, before, literal::escape(c), seq![], Place::Literal, after)) by {
            reveal(gives);
            reveal_with_fuel(read, 3);
        }
        lemma_gives_join(
            Place::Literal,
            before,
            literal::escape(c),
            seq![],
            Place::Literal,
            after,
            literal::escaped(value.skip(n + 1)),
            seq![],
            Place::Literal,
            blanked_text(value),
        );
        assert(Seq::<Token>::empty() + Seq::<Token>::empty() =~= seq![]);
    }
}

proof fn lemma_literal_gives(value: Seq<char>)
    ensures
        gives(
            Place::Outside,
            seq![],
            literal::literal_text(value),
            seq![Token::Literal(blanked_text(value))],
            Place::Outside,
            seq![],
        ),
{
    broadcast use lemma_gives_join;

    let out = seq![Token::Literal(blanked_text(value))];
    assert(value.take(0) =~= seq![]);
    assert(value.skip(0) =~= value);
    assert(blanked_text(value.take(0)) =~= seq![]);
    lemma_escaped_read(value, 0);
    assert(gives(Place::Outside, seq![], seq!['"'], seq![], Place::Literal, seq![])) by {
        reveal(gives);
        reveal_with_fuel(read, 2);
    }
    assert(gives(Place::Literal, blanked_text(value), seq!['"'], out, Place::Outside, seq![])) by {
        reveal(gives);
        reveal_with_fuel(read, 2);
    }
    assert(Seq::<Token>::empty() + Seq::<Token>::empty() + out =~= out);
}

proof fn lemma_decimal_gives(n: nat)
    ensures
        text::decimal(n).len() > 0,
        gives(
            Place::Outside,
            seq![],
            text::decimal(n),
            seq![],
            Place::Outside,
            text::decimal(n),
        ),
    decreases n,
{
    let digits = text::decimal(n);
    reveal(gives);
    if n >= 10 {
        lemma_decimal_gives(n / 10);
        let head = text::decimal(n / 10);
        let last = seq![text::digit(n % 10)];
        assert(head + last =~= digits);
        lemma_read_join(fresh(Place::Outside, seq![]), head, last, digits.len() as int);
        reveal_with_fuel(read, 2);
        assert(head.push(text::digit(n % 10)) =~= digits);
    } else {
        reveal_with_fuel(read, 2);
        assert(Seq::<char>::empty().push(text::digit(n)) =~= digits);
    }
}

// Hearing token by token.

spec fn hearing(subject: Option<Token>, predicate: Option<Token>) -> Listener {
    Listener { subject, predicate, triples: seq![] }
}

/// From a subject and a predicate, the tokens convey these triples and lead to another subject
/// and predicate.
#[verifier::opaque]
spec fn conveys(
    subject: Option<Token>,
    predicate: Option<Token>,
    tokens: Seq<Token>,
    triples: Seq<Triple>,
    next_subject: Option<Token>,
    next_predicate: Option<Token>,
) -> bool {
    hear(hearing(subject, predicate), tokens, tokens.len() as int) == (Listener {
        subject: next_subject,
        predicate: next_predicate,
        triples,
    })
}

/// From a position on, the tokens convey the triples from `j` on.
spec fn says(
    subject: Option<Token>,
    predicate: Option<Token>,
    tokens: Seq<Token>,
    k: int,
    out: Seq<Triple>,
    j: int,
    next_subject: Option<Token>,
) -> bool
    decreases tokens.len() - k,
{
    if k >= tokens.len() {
        subject == next_subject && predicate is None && j == out.len()
    } else {
        match tokens[k] {
            Token::Mark(c) => if c == ',' {
                says(subject, predicate, tokens, k + 1, out, j, next_subject)
            } else if c == ';' {
                says(subject, None, tokens, k + 1, out, j, next_subject)
            } else {
                says(None, None, tokens, k + 1, out, j, next_subject)
            },
            _ => match (subject, predicate) {
                (None, _) => says(
                    Some(tokens[k]),
                    predicate,
                    tokens,
                    k + 1,
                    out,
                    j,
                    next_subject,
                ),
                (Some(_), None) => says(
                    subject,
                    Some(tokens[k]),
                    tokens,
                    k + 1,
                    out,
                    j,
                    next_subject,
                ),
                (Some(s), Some(p)) => j < out.len() && out[j] == (Triple {
                    subject: s,
                    predicate: p,
                    object: tokens[k],
                }) && says(subject, predicate, tokens, k + 1, out, j + 1, next_subject),
            },
        }
    }
}

proof fn lemma_says(
    start: Listener,
    subject: Option<Token>,
    predicate: Option<Token>,
    tokens: Seq<Token>,
    k: int,
    out: Seq<Triple>,
    j: int,
    next_subject: Option<Token>,
)
    requires
        0 <= k <= tokens.len(),
        0 <= j <= out.len(),
        hear(start, tokens, k) == (Listener { subject, predicate, triples: out.take(j) }),
        says(subject, predicate, tokens, k, out, j, next_subject),
    ensures
        hear(start, tokens, tokens.len() as int) == (Listener {
            subject: next_subject,
            predicate: None,
            triples: out,
        }),
    decreases tokens.len() - k,
{
    if k == tokens.len() {
        assert(out.take(j) =~= out);
    } else {
        let l = hear(start, tokens, k + 1);
        assert(l == hear_token(hear(start, tokens, k), tokens[k]));
        if l.triples.len() > j {
            assert(out.take(j).push(out[j]) =~= out.take(j + 1));
            lemma_says(start, l.subject, l.predicate, tokens, k + 1, out, j + 1, next_subject);
        } else {
            lemma_says(start, l.subject, l.predicate, tokens, k + 1, out, j, next_subject);
        }
    }
}

proof fn lemma_says_conveys(
    subject: Option<Token>,
    tokens: Seq<Token>,
    out: Seq<Triple>,
    next_subject: Option<Token>,
)
    requires
        says(subject, None, tokens, 0, out, 0, next_subject),
    ensures
        conveys(subject, None, tokens, out, next_subject, None),
{
    reveal(conveys);
    assert(out.take(0) =~= seq![]);
    lemma_says(hearing(subject, None), subject, None, tokens, 0, out, 0, next_subject);
}

proof fn lemma_hear_shift(l: Listener, tokens: Seq<Token>, n: int)
    ensures
        ({
            let a = hear(l, tokens, n);
            let b = hear(hearing(l.subject, l.predicate), tokens, n);
            a.subject == b.subject && a.predicate == b.predicate && a.triples == l.triples
                + b.triples
        }),
    decreases n,
{
    if n <= 0 {
        assert(l.triples + Seq::<Triple>::empty() =~= l.triples);
    } else {
        lemma_hear_shift(l, tokens, n - 1);
        let a = hear(l, tokens, n - 1);
        let b = hear(hearing(l.subject, l.predicate), tokens, n - 1);
        assert(hear_token(a, tokens[n - 1]).triples =~= l.triples + hear_token(
            b,
            tokens[n - 1],
        ).triples);
    }
}

proof fn lemma_hear_join(l: Listener, a: Seq<Token>, b: Seq<Token>, n: int)
    requires
        0 <= n <= a.len() + b.len(),
    ensures
        n <= a.len() ==> hear(l, a + b, n) == hear(l, a, n),
        n >= a.len() ==> hear(l, a + b, n) == hear(hear(l, a, a.len() as int), b, n - a.len()),
    decreases n,
{
    if n > 0 {
        lemma_hear_join(l, a, b, n - 1);
        if n <= a.len() {
            assert((a + b)[n - 1] == a[n - 1]);
        } else {
            assert((a + b)[n - 1] == b[n - 1 - a.len()]);
        }
    }
}

broadcast proof fn lemma_conveys_join(
    s: Option<Token>,
    p: Option<Token>,
    a: Seq<Token>,
    x: Seq<Triple>,
    t: Option<Token>,
    q: Option<Token>,
    b: Seq<Token>,
    y: Seq<Triple>,
    u: Option<Token>,
    r: Option<Token>,
)
    requires
        #[trigger] conveys(s, p, a, x, t, q),
        #[trigger] conveys(t, q, b, y, u, r),
    ensures
        conveys(s, p, #[trigger] (a + b), x + y, u, r),
{
    reveal(conveys);
    lemma_hear_join(hearing(s, p), a, b, (a + b).len() as int);
    lemma_hear_shift(hear(hearing(s, p), a, a.len() as int), b, b.len() as int);
}

/// The text is read to its end as tokens that convey exactly these triples.
#[verifier::opaque]
spec fn exactly(text: Seq<char>, triples: Seq<Triple>) -> bool {
    exists|tokens: Seq<Token>| #[trigger]
        gives(Place::Outside, seq![], text, tokens, Place::Outside, seq![]) && conveys(
            None,
            None,
            tokens,
            triples,
            None,
            None,
        )
}

proof fn lemma_exactly(text: Seq<char>, tokens: Seq<Token>, triples: Seq<Triple>)
    requires
        gives(Place::Outside, seq![], text, tokens, Place::Outside, seq![]),
        conveys(None, None, tokens, triples, None, None),
    ensures
        exactly(text, triples),
{
    reveal(exactly);
}

proof fn lemma_exactly_triples(text: Seq<char>, triples: Seq<Triple>)
    requires
        exactly(text, triples),
    ensures
        triples_of(text) == triples,
{
    reveal(exactly);
    reveal(gives);
    reveal(conveys);
}

proof fn lemma_nothing_exactly()
    ensures
        exactly(seq![], seq![]),
{
    lemma_nothing_gives(Place::Outside, seq![]);
    reveal(conveys);
    lemma_exactly(seq![], seq![], seq![]);
}

proof fn lemma_exactly_join(a: Seq<char>, x: Seq<Triple>, b: Seq<char>, y: Seq<Triple>)
    requires
        exactly(a, x),
        exactly(b, y),
    ensures
        exactly(a + b, x + y),
{
    reveal(exactly);
    let t = choose|t: Seq<Token>| #[trigger]
        gives(Place::Outside, seq![], a, t, Place::Outside, seq![]) && conveys(
            None,
            None,
            t,
            x,
            None,
            None,
        );
    let u = choose|u: Seq<Token>| #[trigger]
        gives(Place::Outside, seq![], b, u, Place::Outside, seq![]) && conveys(
            None,
            None,
            u,
            y,
            None,
            None,
        );
    lemma_gives_join(
        Place::Outside,
        seq![],
        a,
        t,
        Place::Outside,
        seq![],
        b,
        u,
        Place::Outside,
        seq![],
    );
    lemma_conveys_join(None, None, t, x, None, None, u, y, None, None);
    lemma_exactly(a + b, t + u, x + y);
}

// The names of resources.

spec fn no_end(text: Seq<char>, k: int) -> bool
    decreases text.len() - k,
{
    k >= text.len() || text[k] != '>' && no_end(text, k + 1)
}

proof fn lemma_no_end(text: Seq<char>, k: int)
    requires
        0 <= k,
        no_end(text, k),
    ensures
        forall|i: int| k <= i < text.len() ==> #[trigger] text[i] != '>',
    decreases text.len() - k,
{
    if k < text.len() {
        lemma_no_end(text, k + 1);
    }
}

proof fn lemma_names_within()
    ensures
        within_iri("urn:litho:revision:"@),
        within_iri("urn:litho:semantic-documentation:"@),
        within_iri("urn:litho:graph:source:"@),
        within_iri("urn:litho:graph:documentation:"@),
        within_iri("urn:litho:item:"@),
        within_iri(":"@),
        within_iri("/span"@),
        within_iri("/link/"@),
        within_iri("/doc"@),
{
    assert(within_iri("urn:litho:revision:"@)) by {
        reveal_strlit("urn:litho:revision:");
        reveal_with_fuel(no_end, 20);
        lemma_no_end("urn:litho:revision:"@, 0);
    }
    assert(within_iri("urn:litho:semantic-documentation:"@)) by {
        reveal_strlit("urn:litho:semantic-documentation:");
        reveal_with_fuel(no_end, 34);
        lemma_no_end("urn:litho:semantic-documentation:"@, 0);
    }
    assert(within_iri("urn:litho:graph:source:"@)) by {
        reveal_strlit("urn:litho:graph:source:");
        reveal_with_fuel(no_end, 24);
        lemma_no_end("urn:litho:graph:source:"@, 0);
    }
    assert(within_iri("urn:litho:graph:documentation:"@)) by {
        reveal_strlit("urn:litho:graph:documentation:");
        reveal_with_fuel(no_end, 31);
        lemma_no_end("urn:litho:graph:documentation:"@, 0);
    }
    assert(within_iri("urn:litho:item:"@)) by {
        reveal_strlit("urn:litho:item:");
        reveal_with_fuel(no_end, 16);
        lemma_no_end("urn:litho:item:"@, 0);
    }
    assert(within_iri(":"@)) by {
        reveal_strlit(":");
        reveal_with_fuel(no_end, 2);
        lemma_no_end(":"@, 0);
    }
    assert(within_iri("/span"@)) by {
        reveal_strlit("/span");
        reveal_with_fuel(no_end, 6);
        lemma_no_end("/span"@, 0);
    }
    assert(within_iri("/link/"@)) by {
        reveal_strlit("/link/");
        reveal_with_fuel(no_end, 7);
        lemma_no_end("/link/"@, 0);
    }
    assert(within_iri("/doc"@)) by {
        reveal_strlit("/doc");
        reveal_with_fuel(no_end, 5);
        lemma_no_end("/doc"@, 0);
    }
}

proof fn lemma_segment_within(value: Seq<char>)
    ensures
        within_iri(iri::segment_text(value)),
{
    iri::law_segment_safe(value);
    assert forall|i: int| 0 <= i < iri::segment_text(value).len() implies #[trigger] iri::segment_text(
        value,
    )[i] != '>' by {
        assert(iri::is_segment_char(iri::segment_text(value)[i]));
    }
}

proof fn lemma_resources_within(revision: Seq<char>)
    ensures
        within_iri(graph::revision_iri(revision)),
        within_iri(graph::dataset_iri(revision)),
        within_iri(graph::source_graph_iri(revision)),
        within_iri(graph::docs_graph_iri(revision)),
{
    let segment = iri::segment_text(revision);
    lemma_names_within();
    lemma_segment_within(revision);
    lemma_within_iri_join("urn:litho:revision:"@, segment);
    lemma_within_iri_join("urn:litho:semantic-documentation:"@, segment);
    lemma_within_iri_join("urn:litho:graph:source:"@, segment);
    lemma_within_iri_join("urn:litho:graph:documentation:"@, segment);
}

proof fn lemma_item_within(revision: Seq<char>, id: Seq<char>)
    ensures
        within_iri(iri::item_iri_text(revision, id)),
        within_iri(iri::item_iri_text(revision, id) + "/span"@),
        within_iri(iri::item_iri_text(revision, id) + "/doc"@),
{
    let item = iri::item_iri_text(revision, id);
    lemma_names_within();
    lemma_segment_within(revision);
    lemma_segment_within(id);
    lemma_within_iri_join("urn:litho:item:"@, iri::segment_text(revision));
    lemma_within_iri_join("urn:litho:item:"@ + iri::segment_text(revision), ":"@);
    lemma_within_iri_join(
        "urn:litho:item:"@ + iri::segment_text(revision) + ":"@,
        iri::segment_text(id),
    );
    lemma_within_iri_join(item, "/span"@);
    lemma_within_iri_join(item, "/doc"@);
}

proof fn lemma_edge_within(revision: Seq<char>, id: Seq<char>, label: Seq<char>)
    ensures
        within_iri(iri::item_iri_text(revision, id) + "/link/"@ + iri::segment_text(label)),
{
    let item = iri::item_iri_text(revision, id);
    lemma_names_within();
    lemma_item_within(revision, id);
    lemma_segment_within(label);
    lemma_within_iri_join(item, "/link/"@);
    lemma_within_iri_join(item + "/link/"@, iri::segment_text(label));
}

// What each kind of statement is read as.

/// What several kinds of statements have in common.
proof fn lemma_shared_words(part: Seq<char>)
    ensures
        gives(Place::Outside, seq![], "  <"@, Seq::<Token>::empty(), Place::Iri, seq![]),
        gives(Place::Outside, seq![], " ;\n    sdoc:revision "@, seq![Token::Mark(';'), Token::Word("sdoc:revision"@)], Place::Outside, seq![]),
        gives(Place::Iri, part, "> .\n"@, seq![Token::Iri(part), Token::Mark('.')], Place::Outside, seq![]),
        gives(Place::Outside, seq![], " ;\n    prov:wasDerivedFrom <"@, seq![Token::Mark(';'), Token::Word("prov:wasDerivedFrom"@)], Place::Iri, seq![]),
        gives(Place::Iri, part, "> sdoc:hasEvidence <"@, seq![Token::Iri(part), Token::Word("sdoc:hasEvidence"@)], Place::Iri, seq![]),
        gives(Place::Outside, seq![], " ;\n"@, seq![Token::Mark(';')], Place::Outside, seq![]),
        gives(Place::Iri, part, "> {\n"@, seq![Token::Iri(part), Token::Mark('{')], Place::Outside, seq![]),
{
    assert(gives(Place::Outside, seq![], "  <"@, Seq::<Token>::empty(), Place::Iri, seq![])) by {
        let words = "  <"@;
        let out = Seq::<Token>::empty();
        reveal_strlit("  <");
        reveal_with_fuel(yields, 4);
        lemma_yields_gives(Place::Outside, words, out, Place::Iri);
    }
    assert(gives(Place::Outside, seq![], " ;\n    sdoc:revision "@, seq![Token::Mark(';'), Token::Word("sdoc:revision"@)], Place::Outside, seq![])) by {
        let words = " ;\n    sdoc:revision "@;
        let out = seq![Token::Mark(';'), Token::Word("sdoc:revision"@)];
        reveal_strlit(" ;\n    sdoc:revision ");
        reveal_strlit("sdoc:revision");
        reveal_with_fuel(yields, 13);
        assert(yields(Place::Outside, 2, words, 9, out, 1, Place::Outside));
        lemma_yields_gives(Place::Outside, words, out, Place::Outside);
    }
    assert(gives(Place::Iri, part, "> .\n"@, seq![Token::Iri(part), Token::Mark('.')], Place::Outside, seq![])) by {
        let words = "> .\n"@;
        let out = seq![Token::Iri(part), Token::Mark('.')];
        reveal_strlit("> .\n");
        reveal_with_fuel(yields, 5);
        lemma_yields_ending(Place::Iri, part, words, out, Place::Outside);
    }
    assert(gives(Place::Outside, seq![], " ;\n    prov:wasDerivedFrom <"@, seq![Token::Mark(';'), Token::Word("prov:wasDerivedFrom"@)], Place::Iri, seq![])) by {
        let words = " ;\n    prov:wasDerivedFrom <"@;
        let out = seq![Token::Mark(';'), Token::Word("prov:wasDerivedFrom"@)];
        reveal_strlit(" ;\n    prov:wasDerivedFrom <");
        reveal_strlit("prov:wasDerivedFrom");
        reveal_with_fuel(yields, 17);
        assert(yields(Place::Outside, 9, words, 16, out, 1, Place::Iri));
        lemma_yields_gives(Place::Outside, words, out, Place::Iri);
    }
    assert(gives(Place::Iri, part, "> sdoc:hasEvidence <"@, seq![Token::Iri(part), Token::Word("sdoc:hasEvidence"@)], Place::Iri, seq![])) by {
        let words = "> sdoc:hasEvidence <"@;
        let out = seq![Token::Iri(part), Token::Word("sdoc:hasEvidence"@)];
        reveal_strlit("> sdoc:hasEvidence <");
        reveal_strlit("sdoc:hasEvidence");
        reveal_with_fuel(yields, 13);
        assert(yields(Place::Outside, 6, words, 8, out, 1, Place::Iri));
        lemma_yields_ending(Place::Iri, part, words, out, Place::Iri);
    }
    assert(gives(Place::Outside, seq![], " ;\n"@, seq![Token::Mark(';')], Place::Outside, seq![])) by {
        let words = " ;\n"@;
        let out = seq![Token::Mark(';')];
        reveal_strlit(" ;\n");
        reveal_with_fuel(yields, 4);
        lemma_yields_gives(Place::Outside, words, out, Place::Outside);
    }
    assert(gives(Place::Iri, part, "> {\n"@, seq![Token::Iri(part), Token::Mark('{')], Place::Outside, seq![])) by {
        let words = "> {\n"@;
        let out = seq![Token::Iri(part), Token::Mark('{')];
        reveal_strlit("> {\n");
        reveal_with_fuel(yields, 5);
        lemma_yields_ending(Place::Iri, part, words, out, Place::Outside);
    }
}

proof fn lemma_revision_words(subject: Seq<char>)
    ensures
        gives(Place::Iri, subject, "> a sdoc:RevisionBoundSubject, prov:Entity ;\n    sdoc:repository "@, seq![Token::Iri(subject), Token::Word("a"@), Token::Word("sdoc:RevisionBoundSubject"@), Token::Mark(','), Token::Word("prov:Entity"@), Token::Mark(';'), Token::Word("sdoc:repository"@)], Place::Outside, seq![]),
        gives(Place::Outside, seq![], " ;\n    sdoc:grantsDoAuthority false .\n\n"@, seq![Token::Mark(';'), Token::Word("sdoc:grantsDoAuthority"@), Token::Word("false"@), Token::Mark('.')], Place::Outside, seq![]),
{
    assert(gives(Place::Iri, subject, "> a sdoc:RevisionBoundSubject, prov:Entity ;\n    sdoc:repository "@, seq![Token::Iri(subject), Token::Word("a"@), Token::Word("sdoc:RevisionBoundSubject"@), Token::Mark(','), Token::Word("prov:Entity"@), Token::Mark(';'), Token::Word("sdoc:repository"@)], Place::Outside, seq![])) by {
        let words = "> a sdoc:RevisionBoundSubject, prov:Entity ;\n    sdoc:repository "@;
        let out = seq![Token::Iri(subject), Token::Word("a"@), Token::Word("sdoc:RevisionBoundSubject"@), Token::Mark(','), Token::Word("prov:Entity"@), Token::Mark(';'), Token::Word("sdoc:repository"@)];
        reveal_strlit("> a sdoc:RevisionBoundSubject, prov:Entity ;\n    sdoc:repository ");
        reveal_strlit("a");
        reveal_strlit("sdoc:RevisionBoundSubject");
        reveal_strlit("prov:Entity");
        reveal_strlit("sdoc:repository");
        reveal_with_fuel(yields, 18);
        assert(yields(Place::Outside, 4, words, 53, out, 6, Place::Outside));
        assert(yields(Place::Outside, 10, words, 41, out, 4, Place::Outside));
        assert(yields(Place::Outside, 25, words, 29, out, 2, Place::Outside));
        assert(yields(Place::Outside, 13, words, 17, out, 2, Place::Outside));
        lemma_yields_ending(Place::Iri, subject, words, out, Place::Outside);
    }
    assert(gives(Place::Outside, seq![], " ;\n    sdoc:grantsDoAuthority false .\n\n"@, seq![Token::Mark(';'), Token::Word("sdoc:grantsDoAuthority"@), Token::Word("false"@), Token::Mark('.')], Place::Outside, seq![])) by {
        let words = " ;\n    sdoc:grantsDoAuthority false .\n\n"@;
        let out = seq![Token::Mark(';'), Token::Word("sdoc:grantsDoAuthority"@), Token::Word("false"@), Token::Mark('.')];
        reveal_strlit(" ;\n    sdoc:grantsDoAuthority false .\n\n");
        reveal_strlit("sdoc:grantsDoAuthority");
        reveal_strlit("false");
        reveal_with_fuel(yields, 16);
        assert(yields(Place::Outside, 20, words, 27, out, 1, Place::Outside));
        assert(yields(Place::Outside, 8, words, 15, out, 1, Place::Outside));
        lemma_yields_gives(Place::Outside, words, out, Place::Outside);
    }
}

proof fn lemma_revision_read(repository: Seq<char>, revision: Seq<char>)
    ensures
        ({
            let subject = graph::revision_iri(revision);
            gives(Place::Outside, seq![], graph::revision_statements(repository, revision), seq![Token::Iri(subject), Token::Word("a"@), Token::Word("sdoc:RevisionBoundSubject"@), Token::Mark(','), Token::Word("prov:Entity"@), Token::Mark(';'), Token::Word("sdoc:repository"@), Token::Literal(blanked_text(repository)), Token::Mark(';'), Token::Word("sdoc:revision"@), Token::Literal(blanked_text(revision)), Token::Mark(';'), Token::Word("sdoc:grantsDoAuthority"@), Token::Word("false"@), Token::Mark('.')], Place::Outside, seq![])
        }),
{
    broadcast use lemma_gives_join;

    let subject = graph::revision_iri(revision);
    lemma_resources_within(revision);
    lemma_revision_words(subject);
    lemma_shared_words(seq![]);
    lemma_iri_gives(subject);
    lemma_literal_gives(repository);
    lemma_literal_gives(revision);
    let chunks = Seq::<Token>::empty() + Seq::<Token>::empty() + seq![Token::Iri(subject), Token::Word("a"@), Token::Word("sdoc:RevisionBoundSubject"@), Token::Mark(','), Token::Word("prov:Entity"@), Token::Mark(';'), Token::Word("sdoc:repository"@)] + seq![Token::Literal(blanked_text(repository))] + seq![Token::Mark(';'), Token::Word("sdoc:revision"@)] + seq![Token::Literal(blanked_text(revision))] + seq![Token::Mark(';'), Token::Word("sdoc:grantsDoAuthority"@), Token::Word("false"@), Token::Mark('.')];
    assert(gives(Place::Outside, seq![], graph::revision_statements(repository, revision), chunks, Place::Outside, seq![]));
    assert(chunks =~= seq![Token::Iri(subject), Token::Word("a"@), Token::Word("sdoc:RevisionBoundSubject"@), Token::Mark(','), Token::Word("prov:Entity"@), Token::Mark(';'), Token::Word("sdoc:repository"@), Token::Literal(blanked_text(repository)), Token::Mark(';'), Token::Word("sdoc:revision"@), Token::Literal(blanked_text(revision)), Token::Mark(';'), Token::Word("sdoc:grantsDoAuthority"@), Token::Word("false"@), Token::Mark('.')]);
}

proof fn lemma_dataset_words(subject: Seq<char>, digits: Seq<char>, origin: Seq<char>)
    requires
        digits.len() > 0,
    ensures
        gives(Place::Iri, subject, "> a sdoc:SemanticDocumentationDataset, prov:Entity ;\n    sdoc:repository "@, seq![Token::Iri(subject), Token::Word("a"@), Token::Word("sdoc:SemanticDocumentationDataset"@), Token::Mark(','), Token::Word("prov:Entity"@), Token::Mark(';'), Token::Word("sdoc:repository"@)], Place::Outside, seq![]),
        gives(Place::Outside, seq![], " ;\n    sdoc:sourceGraph "@, seq![Token::Mark(';'), Token::Word("sdoc:sourceGraph"@)], Place::Outside, seq![]),
        gives(Place::Outside, seq![], " ;\n    sdoc:documentationGraph "@, seq![Token::Mark(';'), Token::Word("sdoc:documentationGraph"@)], Place::Outside, seq![]),
        gives(Place::Outside, seq![], " ;\n    sdoc:extractor \"rustdoc-json\" ;\n    sdoc:rustdocFormatVersion "@, seq![Token::Mark(';'), Token::Word("sdoc:extractor"@), Token::Literal("rustdoc-json"@), Token::Mark(';'), Token::Word("sdoc:rustdocFormatVersion"@)], Place::Outside, seq![]),
        gives(Place::Outside, digits, " ;\n    sdoc:standing \"PARTIAL_ALIVE\" ;\n    prov:wasDerivedFrom <"@, seq![Token::Word(digits), Token::Mark(';'), Token::Word("sdoc:standing"@), Token::Literal("PARTIAL_ALIVE"@), Token::Mark(';'), Token::Word("prov:wasDerivedFrom"@)], Place::Iri, seq![]),
        gives(Place::Iri, origin, "> ;\n    sdoc:grantsDoAuthority false .\n"@, seq![Token::Iri(origin), Token::Mark(';'), Token::Word("sdoc:grantsDoAuthority"@), Token::Word("false"@), Token::Mark('.')], Place::Outside, seq![]),
{
    assert(gives(Place::Iri, subject, "> a sdoc:SemanticDocumentationDataset, prov:Entity ;\n    sdoc:repository "@, seq![Token::Iri(subject), Token::Word("a"@), Token::Word("sdoc:SemanticDocumentationDataset"@), Token::Mark(','), Token::Word("prov:Entity"@), Token::Mark(';'), Token::Word("sdoc:repository"@)], Place::Outside, seq![])) by {
        let words = "> a sdoc:SemanticDocumentationDataset, prov:Entity ;\n    sdoc:repository "@;
        let out = seq![Token::Iri(subject), Token::Word("a"@), Token::Word("sdoc:SemanticDocumentationDataset"@), Token::Mark(','), Token::Word("prov:Entity"@), Token::Mark(';'), Token::Word("sdoc:repository"@)];
        reveal_strlit("> a sdoc:SemanticDocumentationDataset, prov:Entity ;\n    sdoc:repository ");
        reveal_strlit("a");
        reveal_strlit("sdoc:SemanticDocumentationDataset");
        reveal_strlit("prov:Entity");
        reveal_strlit("sdoc:repository");
        reveal_with_fuel(yields, 14);
        assert(yields(Place::Outside, 4, words, 61, out, 6, Place::Outside));
        assert(yields(Place::Outside, 10, words, 49, out, 4, Place::Outside));
        assert(yields(Place::Outside, 33, words, 37, out, 2, Place::Outside));
        assert(yields(Place::Outside, 21, words, 25, out, 2, Place::Outside));
        assert(yields(Place::Outside, 9, words, 13, out, 2, Place::Outside));
        lemma_yields_ending(Place::Iri, subject, words, out, Place::Outside);
    }
    assert(gives(Place::Outside, seq![], " ;\n    sdoc:sourceGraph "@, seq![Token::Mark(';'), Token::Word("sdoc:sourceGraph"@)], Place::Outside, seq![])) by {
        let words = " ;\n    sdoc:sourceGraph "@;
        let out = seq![Token::Mark(';'), Token::Word("sdoc:sourceGraph"@)];
        reveal_strlit(" ;\n    sdoc:sourceGraph ");
        reveal_strlit("sdoc:sourceGraph");
        reveal_with_fuel(yields, 13);
        assert(yields(Place::Outside, 5, words, 12, out, 1, Place::Outside));
        lemma_yields_gives(Place::Outside, words, out, Place::Outside);
    }
    assert(gives(Place::Outside, seq![], " ;\n    sdoc:documentationGraph "@, seq![Token::Mark(';'), Token::Word("sdoc:documentationGraph"@)], Place::Outside, seq![])) by {
        let words = " ;\n    sdoc:documentationGraph "@;
        let out = seq![Token::Mark(';'), Token::Word("sdoc:documentationGraph"@)];
        reveal_strlit(" ;\n    sdoc:documentationGraph ");
        reveal_strlit("sdoc:documentationGraph");
        reveal_with_fuel(yields, 13);
        assert(yields(Place::Outside, 12, words, 19, out, 1, Place::Outside));
        assert(yields(Place::Outside, 0, words, 7, out, 1, Place::Outside));
        lemma_yields_gives(Place::Outside, words, out, Place::Outside);
    }
    assert(gives(Place::Outside, seq![], " ;\n    sdoc:extractor \"rustdoc-json\" ;\n    sdoc:rustdocFormatVersion "@, seq![Token::Mark(';'), Token::Word("sdoc:extractor"@), Token::Literal("rustdoc-json"@), Token::Mark(';'), Token::Word("sdoc:rustdocFormatVersion"@)], Place::Outside, seq![])) by {
        let words = " ;\n    sdoc:extractor \"rustdoc-json\" ;\n    sdoc:rustdocFormatVersion "@;
        let out = seq![Token::Mark(';'), Token::Word("sdoc:extractor"@), Token::Literal("rustdoc-json"@), Token::Mark(';'), Token::Word("sdoc:rustdocFormatVersion"@)];
        reveal_strlit(" ;\n    sdoc:extractor \"rustdoc-json\" ;\n    sdoc:rustdocFormatVersion ");
        reveal_strlit("sdoc:extractor");
        reveal_strlit("rustdoc-json");
        reveal_strlit("sdoc:rustdocFormatVersion");
        reveal_with_fuel(yields, 13);
        assert(yields(Place::Outside, 14, words, 57, out, 4, Place::Outside));
        assert(yields(Place::Outside, 2, words, 45, out, 4, Place::Outside));
        assert(yields(Place::Literal, 10, words, 33, out, 2, Place::Outside));
        assert(yields(Place::Outside, 14, words, 21, out, 1, Place::Outside));
        assert(yields(Place::Outside, 2, words, 9, out, 1, Place::Outside));
        lemma_yields_gives(Place::Outside, words, out, Place::Outside);
    }
    assert(gives(Place::Outside, digits, " ;\n    sdoc:standing \"PARTIAL_ALIVE\" ;\n    prov:wasDerivedFrom <"@, seq![Token::Word(digits), Token::Mark(';'), Token::Word("sdoc:standing"@), Token::Literal("PARTIAL_ALIVE"@), Token::Mark(';'), Token::Word("prov:wasDerivedFrom"@)], Place::Iri, seq![])) by {
        let words = " ;\n    sdoc:standing \"PARTIAL_ALIVE\" ;\n    prov:wasDerivedFrom <"@;
        let out = seq![Token::Word(digits), Token::Mark(';'), Token::Word("sdoc:standing"@), Token::Literal("PARTIAL_ALIVE"@), Token::Mark(';'), Token::Word("prov:wasDerivedFrom"@)];
        reveal_strlit(" ;\n    sdoc:standing \"PARTIAL_ALIVE\" ;\n    prov:wasDerivedFrom <");
        reveal_strlit("sdoc:standing");
        reveal_strlit("PARTIAL_ALIVE");
        reveal_strlit("prov:wasDerivedFrom");
        reveal_with_fuel(yields, 17);
        assert(yields(Place::Outside, 9, words, 52, out, 5, Place::Iri));
        assert(yields(Place::Outside, 0, words, 40, out, 5, Place::Iri));
        assert(yields(Place::Literal, 6, words, 28, out, 3, Place::Iri));
        assert(yields(Place::Outside, 9, words, 16, out, 2, Place::Iri));
        lemma_yields_ending(Place::Outside, digits, words, out, Place::Iri);
    }
    assert(gives(Place::Iri, origin, "> ;\n    sdoc:grantsDoAuthority false .\n"@, seq![Token::Iri(origin), Token::Mark(';'), Token::Word("sdoc:grantsDoAuthority"@), Token::Word("false"@), Token::Mark('.')], Place::Outside, seq![])) by {
        let words = "> ;\n    sdoc:grantsDoAuthority false .\n"@;
        let out = seq![Token::Iri(origin), Token::Mark(';'), Token::Word("sdoc:grantsDoAuthority"@), Token::Word("false"@), Token::Mark('.')];
        reveal_strlit("> ;\n    sdoc:grantsDoAuthority false .\n");
        reveal_strlit("sdoc:grantsDoAuthority");
        reveal_strlit("false");
        reveal_with_fuel(yields, 16);
        assert(yields(Place::Outside, 19, words, 27, out, 2, Place::Outside));
        assert(yields(Place::Outside, 7, words, 15, out, 2, Place::Outside));
        lemma_yields_ending(Place::Iri, origin, words, out, Place::Outside);
    }
}

proof fn lemma_dataset_read(repository: Seq<char>, revision: Seq<char>, version: u64)
    ensures
        ({
            let subject = graph::dataset_iri(revision);
            let origin = graph::revision_iri(revision);
            let digits = text::decimal(version as nat);
            gives(Place::Outside, seq![], graph::dataset_statements(repository, revision, version), seq![Token::Iri(subject), Token::Word("a"@), Token::Word("sdoc:SemanticDocumentationDataset"@), Token::Mark(','), Token::Word("prov:Entity"@), Token::Mark(';'), Token::Word("sdoc:repository"@), Token::Literal(blanked_text(repository)), Token::Mark(';'), Token::Word("sdoc:revision"@), Token::Literal(blanked_text(revision)), Token::Mark(';'), Token::Word("sdoc:sourceGraph"@), Token::Literal(blanked_text(graph::source_graph_iri(revision))), Token::Mark(';'), Token::Word("sdoc:documentationGraph"@), Token::Literal(blanked_text(graph::docs_graph_iri(revision))), Token::Mark(';'), Token::Word("sdoc:extractor"@), Token::Literal("rustdoc-json"@), Token::Mark(';'), Token::Word("sdoc:rustdocFormatVersion"@), Token::Word(digits), Token::Mark(';'), Token::Word("sdoc:standing"@), Token::Literal("PARTIAL_ALIVE"@), Token::Mark(';'), Token::Word("prov:wasDerivedFrom"@), Token::Iri(origin), Token::Mark(';'), Token::Word("sdoc:grantsDoAuthority"@), Token::Word("false"@), Token::Mark('.')], Place::Outside, seq![])
        }),
{
    broadcast use lemma_gives_join;

    let subject = graph::dataset_iri(revision);
    let origin = graph::revision_iri(revision);
    let digits = text::decimal(version as nat);
    lemma_resources_within(revision);
    lemma_decimal_gives(version as nat);
    lemma_dataset_words(subject, digits, origin);
    lemma_shared_words(seq![]);
    lemma_iri_gives(subject);
    lemma_iri_gives(origin);
    lemma_literal_gives(repository);
    lemma_literal_gives(revision);
    lemma_literal_gives(graph::source_graph_iri(revision));
    lemma_literal_gives(graph::docs_graph_iri(revision));
    let chunks = Seq::<Token>::empty() + Seq::<Token>::empty() + seq![Token::Iri(subject), Token::Word("a"@), Token::Word("sdoc:SemanticDocumentationDataset"@), Token::Mark(','), Token::Word("prov:Entity"@), Token::Mark(';'), Token::Word("sdoc:repository"@)] + seq![Token::Literal(blanked_text(repository))] + seq![Token::Mark(';'), Token::Word("sdoc:revision"@)] + seq![Token::Literal(blanked_text(revision))] + seq![Token::Mark(';'), Token::Word("sdoc:sourceGraph"@)] + seq![Token::Literal(blanked_text(graph::source_graph_iri(revision)))] + seq![Token::Mark(';'), Token::Word("sdoc:documentationGraph"@)] + seq![Token::Literal(blanked_text(graph::docs_graph_iri(revision)))] + seq![Token::Mark(';'), Token::Word("sdoc:extractor"@), Token::Literal("rustdoc-json"@), Token::Mark(';'), Token::Word("sdoc:rustdocFormatVersion"@)] + Seq::<Token>::empty() + seq![Token::Word(digits), Token::Mark(';'), Token::Word("sdoc:standing"@), Token::Literal("PARTIAL_ALIVE"@), Token::Mark(';'), Token::Word("prov:wasDerivedFrom"@)] + Seq::<Token>::empty() + seq![Token::Iri(origin), Token::Mark(';'), Token::Word("sdoc:grantsDoAuthority"@), Token::Word("false"@), Token::Mark('.')];
    assert(gives(Place::Outside, seq![], graph::dataset_statements(repository, revision, version), chunks, Place::Outside, seq![]));
    assert(chunks =~= seq![Token::Iri(subject), Token::Word("a"@), Token::Word("sdoc:SemanticDocumentationDataset"@), Token::Mark(','), Token::Word("prov:Entity"@), Token::Mark(';'), Token::Word("sdoc:repository"@), Token::Literal(blanked_text(repository)), Token::Mark(';'), Token::Word("sdoc:revision"@), Token::Literal(blanked_text(revision)), Token::Mark(';'), Token::Word("sdoc:sourceGraph"@), Token::Literal(blanked_text(graph::source_graph_iri(revision))), Token::Mark(';'), Token::Word("sdoc:documentationGraph"@), Token::Literal(blanked_text(graph::docs_graph_iri(revision))), Token::Mark(';'), Token::Word("sdoc:extractor"@), Token::Literal("rustdoc-json"@), Token::Mark(';'), Token::Word("sdoc:rustdocFormatVersion"@), Token::Word(digits), Token::Mark(';'), Token::Word("sdoc:standing"@), Token::Literal("PARTIAL_ALIVE"@), Token::Mark(';'), Token::Word("prov:wasDerivedFrom"@), Token::Iri(origin), Token::Mark(';'), Token::Word("sdoc:grantsDoAuthority"@), Token::Word("false"@), Token::Mark('.')]);
}

proof fn lemma_span_words(place: Seq<char>, start_line: Seq<char>, start_column: Seq<char>, end_line: Seq<char>, end_column: Seq<char>, subject: Seq<char>)
    requires
        start_line.len() > 0,
        start_column.len() > 0,
        end_line.len() > 0,
        end_column.len() > 0,
    ensures
        gives(Place::Iri, place, "> a sdoc:SourceSpan, prov:Entity ;\n    sdoc:sourceFile "@, seq![Token::Iri(place), Token::Word("a"@), Token::Word("sdoc:SourceSpan"@), Token::Mark(','), Token::Word("prov:Entity"@), Token::Mark(';'), Token::Word("sdoc:sourceFile"@)], Place::Outside, seq![]),
        gives(Place::Outside, seq![], " ;\n    sdoc:startLine "@, seq![Token::Mark(';'), Token::Word("sdoc:startLine"@)], Place::Outside, seq![]),
        gives(Place::Outside, start_line, " ;\n    sdoc:startColumn "@, seq![Token::Word(start_line), Token::Mark(';'), Token::Word("sdoc:startColumn"@)], Place::Outside, seq![]),
        gives(Place::Outside, start_column, " ;\n    sdoc:endLine "@, seq![Token::Word(start_column), Token::Mark(';'), Token::Word("sdoc:endLine"@)], Place::Outside, seq![]),
        gives(Place::Outside, end_line, " ;\n    sdoc:endColumn "@, seq![Token::Word(end_line), Token::Mark(';'), Token::Word("sdoc:endColumn"@)], Place::Outside, seq![]),
        gives(Place::Outside, end_column, " ;\n    sdoc:grantsDoAuthority false .\n  <"@, seq![Token::Word(end_column), Token::Mark(';'), Token::Word("sdoc:grantsDoAuthority"@), Token::Word("false"@), Token::Mark('.')], Place::Iri, seq![]),
        gives(Place::Iri, subject, "> sdoc:definedAt <"@, seq![Token::Iri(subject), Token::Word("sdoc:definedAt"@)], Place::Iri, seq![]),
{
    assert(gives(Place::Iri, place, "> a sdoc:SourceSpan, prov:Entity ;\n    sdoc:sourceFile "@, seq![Token::Iri(place), Token::Word("a"@), Token::Word("sdoc:SourceSpan"@), Token::Mark(','), Token::Word("prov:Entity"@), Token::Mark(';'), Token::Word("sdoc:sourceFile"@)], Place::Outside, seq![])) by {
        let words = "> a sdoc:SourceSpan, prov:Entity ;\n    sdoc:sourceFile "@;
        let out = seq![Token::Iri(place), Token::Word("a"@), Token::Word("sdoc:SourceSpan"@), Token::Mark(','), Token::Word("prov:Entity"@), Token::Mark(';'), Token::Word("sdoc:sourceFile"@)];
        reveal_strlit("> a sdoc:SourceSpan, prov:Entity ;\n    sdoc:sourceFile ");
        reveal_strlit("a");
        reveal_strlit("sdoc:SourceSpan");
        reveal_strlit("prov:Entity");
        reveal_strlit("sdoc:sourceFile");
        reveal_with_fuel(yields, 13);
        assert(yields(Place::Outside, 4, words, 43, out, 6, Place::Outside));
        assert(yields(Place::Outside, 10, words, 31, out, 4, Place::Outside));
        assert(yields(Place::Outside, 15, words, 19, out, 2, Place::Outside));
        assert(yields(Place::Outside, 3, words, 7, out, 2, Place::Outside));
        lemma_yields_ending(Place::Iri, place, words, out, Place::Outside);
    }
    assert(gives(Place::Outside, seq![], " ;\n    sdoc:startLine "@, seq![Token::Mark(';'), Token::Word("sdoc:startLine"@)], Place::Outside, seq![])) by {
        let words = " ;\n    sdoc:startLine "@;
        let out = seq![Token::Mark(';'), Token::Word("sdoc:startLine"@)];
        reveal_strlit(" ;\n    sdoc:startLine ");
        reveal_strlit("sdoc:startLine");
        reveal_with_fuel(yields, 13);
        assert(yields(Place::Outside, 3, words, 10, out, 1, Place::Outside));
        lemma_yields_gives(Place::Outside, words, out, Place::Outside);
    }
    assert(gives(Place::Outside, start_line, " ;\n    sdoc:startColumn "@, seq![Token::Word(start_line), Token::Mark(';'), Token::Word("sdoc:startColumn"@)], Place::Outside, seq![])) by {
        let words = " ;\n    sdoc:startColumn "@;
        let out = seq![Token::Word(start_line), Token::Mark(';'), Token::Word("sdoc:startColumn"@)];
        reveal_strlit(" ;\n    sdoc:startColumn ");
        reveal_strlit("sdoc:startColumn");
        reveal_with_fuel(yields, 13);
        assert(yields(Place::Outside, 5, words, 12, out, 2, Place::Outside));
        lemma_yields_ending(Place::Outside, start_line, words, out, Place::Outside);
    }
    assert(gives(Place::Outside, start_column, " ;\n    sdoc:endLine "@, seq![Token::Word(start_column), Token::Mark(';'), Token::Word("sdoc:endLine"@)], Place::Outside, seq![])) by {
        let words = " ;\n    sdoc:endLine "@;
        let out = seq![Token::Word(start_column), Token::Mark(';'), Token::Word("sdoc:endLine"@)];
        reveal_strlit(" ;\n    sdoc:endLine ");
        reveal_strlit("sdoc:endLine");
        reveal_with_fuel(yields, 13);
        assert(yields(Place::Outside, 1, words, 8, out, 2, Place::Outside));
        lemma_yields_ending(Place::Outside, start_column, words, out, Place::Outside);
    }
    assert(gives(Place::Outside, end_line, " ;\n    sdoc:endColumn "@, seq![Token::Word(end_line), Token::Mark(';'), Token::Word("sdoc:endColumn"@)], Place::Outside, seq![])) by {
        let words = " ;\n    sdoc:endColumn "@;
        let out = seq![Token::Word(end_line), Token::Mark(';'), Token::Word("sdoc:endColumn"@)];
        reveal_strlit(" ;\n    sdoc:endColumn ");
        reveal_strlit("sdoc:endColumn");
        reveal_with_fuel(yields, 13);
        assert(yields(Place::Outside, 3, words, 10, out, 2, Place::Outside));
        lemma_yields_ending(Place::Outside, end_line, words, out, Place::Outside);
    }
    assert(gives(Place::Outside, end_column, " ;\n    sdoc:grantsDoAuthority false .\n  <"@, seq![Token::Word(end_column), Token::Mark(';'), Token::Word("sdoc:grantsDoAuthority"@), Token::Word("false"@), Token::Mark('.')], Place::Iri, seq![])) by {
        let words = " ;\n    sdoc:grantsDoAuthority false .\n  <"@;
        let out = seq![Token::Word(end_column), Token::Mark(';'), Token::Word("sdoc:grantsDoAuthority"@), Token::Word("false"@), Token::Mark('.')];
        reveal_strlit(" ;\n    sdoc:grantsDoAuthority false .\n  <");
        reveal_strlit("sdoc:grantsDoAuthority");
        reveal_strlit("false");
        reveal_with_fuel(yields, 18);
        assert(yields(Place::Outside, 22, words, 29, out, 2, Place::Iri));
        assert(yields(Place::Outside, 10, words, 17, out, 2, Place::Iri));
        lemma_yields_ending(Place::Outside, end_column, words, out, Place::Iri);
    }
    assert(gives(Place::Iri, subject, "> sdoc:definedAt <"@, seq![Token::Iri(subject), Token::Word("sdoc:definedAt"@)], Place::Iri, seq![])) by {
        let words = "> sdoc:definedAt <"@;
        let out = seq![Token::Iri(subject), Token::Word("sdoc:definedAt"@)];
        reveal_strlit("> sdoc:definedAt <");
        reveal_strlit("sdoc:definedAt");
        reveal_with_fuel(yields, 19);
        lemma_yields_ending(Place::Iri, subject, words, out, Place::Iri);
    }
}

proof fn lemma_span_read(revision: Seq<char>, id: Seq<char>, item: JsonTree)
    requires
        item.member("span"@) matches Some(JsonTree::Object(_)),
    ensures
        ({
            let subject = iri::item_iri_text(revision, id);
            let place = subject + "/span"@;
            let begin = rustdoc::position(item.member("span"@)->0.member("begin"@));
            let end = rustdoc::position(item.member("span"@)->0.member("end"@));
            let start_line = text::decimal(begin.0 as nat);
            let start_column = text::decimal(begin.1 as nat);
            let end_line = text::decimal(end.0 as nat);
            let end_column = text::decimal(end.1 as nat);
            gives(Place::Outside, seq![], graph::span_statements(revision, id, item), seq![Token::Iri(place), Token::Word("a"@), Token::Word("sdoc:SourceSpan"@), Token::Mark(','), Token::Word("prov:Entity"@), Token::Mark(';'), Token::Word("sdoc:sourceFile"@), Token::Literal(blanked_text(graph::span_file(item.member("span"@)->0))), Token::Mark(';'), Token::Word("sdoc:startLine"@), Token::Word(start_line), Token::Mark(';'), Token::Word("sdoc:startColumn"@), Token::Word(start_column), Token::Mark(';'), Token::Word("sdoc:endLine"@), Token::Word(end_line), Token::Mark(';'), Token::Word("sdoc:endColumn"@), Token::Word(end_column), Token::Mark(';'), Token::Word("sdoc:grantsDoAuthority"@), Token::Word("false"@), Token::Mark('.'), Token::Iri(subject), Token::Word("sdoc:definedAt"@), Token::Iri(place), Token::Mark('.')], Place::Outside, seq![])
        }),
{
    broadcast use lemma_gives_join;

    let subject = iri::item_iri_text(revision, id);
    let place = subject + "/span"@;
    let begin = rustdoc::position(item.member("span"@)->0.member("begin"@));
    let end = rustdoc::position(item.member("span"@)->0.member("end"@));
    let start_line = text::decimal(begin.0 as nat);
    let start_column = text::decimal(begin.1 as nat);
    let end_line = text::decimal(end.0 as nat);
    let end_column = text::decimal(end.1 as nat);
    lemma_item_within(revision, id);
    lemma_decimal_gives(begin.0 as nat);
    lemma_decimal_gives(begin.1 as nat);
    lemma_decimal_gives(end.0 as nat);
    lemma_decimal_gives(end.1 as nat);
    lemma_span_words(place, start_line, start_column, end_line, end_column, subject);
    lemma_shared_words(place);
    lemma_iri_gives(place);
    lemma_iri_gives(subject);
    lemma_literal_gives(graph::span_file(item.member("span"@)->0));
    let chunks = Seq::<Token>::empty() + Seq::<Token>::empty() + seq![Token::Iri(place), Token::Word("a"@), Token::Word("sdoc:SourceSpan"@), Token::Mark(','), Token::Word("prov:Entity"@), Token::Mark(';'), Token::Word("sdoc:sourceFile"@)] + seq![Token::Literal(blanked_text(graph::span_file(item.member("span"@)->0)))] + seq![Token::Mark(';'), Token::Word("sdoc:startLine"@)] + Seq::<Token>::empty() + seq![Token::Word(start_line), Token::Mark(';'), Token::Word("sdoc:startColumn"@)] + Seq::<Token>::empty() + seq![Token::Word(start_column), Token::Mark(';'), Token::Word("sdoc:endLine"@)] + Seq::<Token>::empty() + seq![Token::Word(end_line), Token::Mark(';'), Token::Word("sdoc:endColumn"@)] + Seq::<Token>::empty() + seq![Token::Word(end_column), Token::Mark(';'), Token::Word("sdoc:grantsDoAuthority"@), Token::Word("false"@), Token::Mark('.')] + Seq::<Token>::empty() + seq![Token::Iri(subject), Token::Word("sdoc:definedAt"@)] + Seq::<Token>::empty() + seq![Token::Iri(place), Token::Mark('.')];
    assert(gives(Place::Outside, seq![], graph::span_statements(revision, id, item), chunks, Place::Outside, seq![]));
    assert(chunks =~= seq![Token::Iri(place), Token::Word("a"@), Token::Word("sdoc:SourceSpan"@), Token::Mark(','), Token::Word("prov:Entity"@), Token::Mark(';'), Token::Word("sdoc:sourceFile"@), Token::Literal(blanked_text(graph::span_file(item.member("span"@)->0))), Token::Mark(';'), Token::Word("sdoc:startLine"@), Token::Word(start_line), Token::Mark(';'), Token::Word("sdoc:startColumn"@), Token::Word(start_column), Token::Mark(';'), Token::Word("sdoc:endLine"@), Token::Word(end_line), Token::Mark(';'), Token::Word("sdoc:endColumn"@), Token::Word(end_column), Token::Mark(';'), Token::Word("sdoc:grantsDoAuthority"@), Token::Word("false"@), Token::Mark('.'), Token::Iri(subject), Token::Word("sdoc:definedAt"@), Token::Iri(place), Token::Mark('.')]);
}

proof fn lemma_link_words(subject: Seq<char>, target: Seq<char>, edge: Seq<char>)
    ensures
        gives(Place::Iri, subject, "> sdoc:references <"@, seq![Token::Iri(subject), Token::Word("sdoc:references"@)], Place::Iri, seq![]),
        gives(Place::Iri, edge, "> a sdoc:DocumentationReference, prov:Entity ; sdoc:from <"@, seq![Token::Iri(edge), Token::Word("a"@), Token::Word("sdoc:DocumentationReference"@), Token::Mark(','), Token::Word("prov:Entity"@), Token::Mark(';'), Token::Word("sdoc:from"@)], Place::Iri, seq![]),
        gives(Place::Iri, subject, "> ; sdoc:to <"@, seq![Token::Iri(subject), Token::Mark(';'), Token::Word("sdoc:to"@)], Place::Iri, seq![]),
        gives(Place::Iri, target, "> ; sdoc:linkLabel "@, seq![Token::Iri(target), Token::Mark(';'), Token::Word("sdoc:linkLabel"@)], Place::Outside, seq![]),
        gives(Place::Outside, seq![], " ; sdoc:grantsDoAuthority false .\n"@, seq![Token::Mark(';'), Token::Word("sdoc:grantsDoAuthority"@), Token::Word("false"@), Token::Mark('.')], Place::Outside, seq![]),
{
    assert(gives(Place::Iri, subject, "> sdoc:references <"@, seq![Token::Iri(subject), Token::Word("sdoc:references"@)], Place::Iri, seq![])) by {
        let words = "> sdoc:references <"@;
        let out = seq![Token::Iri(subject), Token::Word("sdoc:references"@)];
        reveal_strlit("> sdoc:references <");
        reveal_strlit("sdoc:references");
        reveal_with_fuel(yields, 13);
        assert(yields(Place::Outside, 5, words, 7, out, 1, Place::Iri));
        lemma_yields_ending(Place::Iri, subject, words, out, Place::Iri);
    }
    assert(gives(Place::Iri, edge, "> a sdoc:DocumentationReference, prov:Entity ; sdoc:from <"@, seq![Token::Iri(edge), Token::Word("a"@), Token::Word("sdoc:DocumentationReference"@), Token::Mark(','), Token::Word("prov:Entity"@), Token::Mark(';'), Token::Word("sdoc:from"@)], Place::Iri, seq![])) by {
        let words = "> a sdoc:DocumentationReference, prov:Entity ; sdoc:from <"@;
        let out = seq![Token::Iri(edge), Token::Word("a"@), Token::Word("sdoc:DocumentationReference"@), Token::Mark(','), Token::Word("prov:Entity"@), Token::Mark(';'), Token::Word("sdoc:from"@)];
        reveal_strlit("> a sdoc:DocumentationReference, prov:Entity ; sdoc:from <");
        reveal_strlit("a");
        reveal_strlit("sdoc:DocumentationReference");
        reveal_strlit("prov:Entity");
        reveal_strlit("sdoc:from");
        reveal_with_fuel(yields, 13);
        assert(yields(Place::Outside, 0, words, 46, out, 6, Place::Iri));
        assert(yields(Place::Outside, 1, words, 34, out, 4, Place::Iri));
        assert(yields(Place::Outside, 18, words, 22, out, 2, Place::Iri));
        assert(yields(Place::Outside, 6, words, 10, out, 2, Place::Iri));
        lemma_yields_ending(Place::Iri, edge, words, out, Place::Iri);
    }
    assert(gives(Place::Iri, subject, "> ; sdoc:to <"@, seq![Token::Iri(subject), Token::Mark(';'), Token::Word("sdoc:to"@)], Place::Iri, seq![])) by {
        let words = "> ; sdoc:to <"@;
        let out = seq![Token::Iri(subject), Token::Mark(';'), Token::Word("sdoc:to"@)];
        reveal_strlit("> ; sdoc:to <");
        reveal_strlit("sdoc:to");
        reveal_with_fuel(yields, 14);
        lemma_yields_ending(Place::Iri, subject, words, out, Place::Iri);
    }
    assert(gives(Place::Iri, target, "> ; sdoc:linkLabel "@, seq![Token::Iri(target), Token::Mark(';'), Token::Word("sdoc:linkLabel"@)], Place::Outside, seq![])) by {
        let words = "> ; sdoc:linkLabel "@;
        let out = seq![Token::Iri(target), Token::Mark(';'), Token::Word("sdoc:linkLabel"@)];
        reveal_strlit("> ; sdoc:linkLabel ");
        reveal_strlit("sdoc:linkLabel");
        reveal_with_fuel(yields, 13);
        assert(yields(Place::Outside, 3, words, 7, out, 2, Place::Outside));
        lemma_yields_ending(Place::Iri, target, words, out, Place::Outside);
    }
    assert(gives(Place::Outside, seq![], " ; sdoc:grantsDoAuthority false .\n"@, seq![Token::Mark(';'), Token::Word("sdoc:grantsDoAuthority"@), Token::Word("false"@), Token::Mark('.')], Place::Outside, seq![])) by {
        let words = " ; sdoc:grantsDoAuthority false .\n"@;
        let out = seq![Token::Mark(';'), Token::Word("sdoc:grantsDoAuthority"@), Token::Word("false"@), Token::Mark('.')];
        reveal_strlit(" ; sdoc:grantsDoAuthority false .\n");
        reveal_strlit("sdoc:grantsDoAuthority");
        reveal_strlit("false");
        reveal_with_fuel(yields, 13);
        assert(yields(Place::Outside, 19, words, 22, out, 1, Place::Outside));
        assert(yields(Place::Outside, 7, words, 10, out, 1, Place::Outside));
        lemma_yields_gives(Place::Outside, words, out, Place::Outside);
    }
}

proof fn lemma_link_read(revision: Seq<char>, id: Seq<char>, label: Seq<char>, value: JsonTree)
    requires
        rustdoc::has_text(value),
    ensures
        ({
            let subject = iri::item_iri_text(revision, id);
            let target = iri::item_iri_text(revision, rustdoc::scalar_text(value));
            let edge = subject + "/link/"@ + iri::segment_text(label);
            gives(Place::Outside, seq![], graph::link_statements(revision, id, label, value), seq![Token::Iri(subject), Token::Word("sdoc:references"@), Token::Iri(target), Token::Mark('.'), Token::Iri(edge), Token::Word("a"@), Token::Word("sdoc:DocumentationReference"@), Token::Mark(','), Token::Word("prov:Entity"@), Token::Mark(';'), Token::Word("sdoc:from"@), Token::Iri(subject), Token::Mark(';'), Token::Word("sdoc:to"@), Token::Iri(target), Token::Mark(';'), Token::Word("sdoc:linkLabel"@), Token::Literal(blanked_text(label)), Token::Mark(';'), Token::Word("sdoc:grantsDoAuthority"@), Token::Word("false"@), Token::Mark('.')], Place::Outside, seq![])
        }),
{
    broadcast use lemma_gives_join;

    let subject = iri::item_iri_text(revision, id);
    let target = iri::item_iri_text(revision, rustdoc::scalar_text(value));
    let edge = subject + "/link/"@ + iri::segment_text(label);
    lemma_item_within(revision, id);
    lemma_item_within(revision, rustdoc::scalar_text(value));
    lemma_edge_within(revision, id, label);
    lemma_link_words(subject, target, edge);
    lemma_shared_words(target);
    lemma_iri_gives(subject);
    lemma_iri_gives(target);
    lemma_iri_gives(edge);
    lemma_literal_gives(label);
    let chunks = Seq::<Token>::empty() + Seq::<Token>::empty() + seq![Token::Iri(subject), Token::Word("sdoc:references"@)] + Seq::<Token>::empty() + seq![Token::Iri(target), Token::Mark('.')] + Seq::<Token>::empty() + Seq::<Token>::empty() + seq![Token::Iri(edge), Token::Word("a"@), Token::Word("sdoc:DocumentationReference"@), Token::Mark(','), Token::Word("prov:Entity"@), Token::Mark(';'), Token::Word("sdoc:from"@)] + Seq::<Token>::empty() + seq![Token::Iri(subject), Token::Mark(';'), Token::Word("sdoc:to"@)] + Seq::<Token>::empty() + seq![Token::Iri(target), Token::Mark(';'), Token::Word("sdoc:linkLabel"@)] + seq![Token::Literal(blanked_text(label))] + seq![Token::Mark(';'), Token::Word("sdoc:grantsDoAuthority"@), Token::Word("false"@), Token::Mark('.')];
    assert(gives(Place::Outside, seq![], graph::link_statements(revision, id, label, value), chunks, Place::Outside, seq![]));
    assert(chunks =~= seq![Token::Iri(subject), Token::Word("sdoc:references"@), Token::Iri(target), Token::Mark('.'), Token::Iri(edge), Token::Word("a"@), Token::Word("sdoc:DocumentationReference"@), Token::Mark(','), Token::Word("prov:Entity"@), Token::Mark(';'), Token::Word("sdoc:from"@), Token::Iri(subject), Token::Mark(';'), Token::Word("sdoc:to"@), Token::Iri(target), Token::Mark(';'), Token::Word("sdoc:linkLabel"@), Token::Literal(blanked_text(label)), Token::Mark(';'), Token::Word("sdoc:grantsDoAuthority"@), Token::Word("false"@), Token::Mark('.')]);
}

proof fn lemma_docs_words(fragment: Seq<char>, subject: Seq<char>)
    ensures
        gives(Place::Iri, fragment, "> a sdoc:DocFragment, sdoc:DocumentationEvidence, prov:Entity ;\n    sdoc:documents <"@, seq![Token::Iri(fragment), Token::Word("a"@), Token::Word("sdoc:DocFragment"@), Token::Mark(','), Token::Word("sdoc:DocumentationEvidence"@), Token::Mark(','), Token::Word("prov:Entity"@), Token::Mark(';'), Token::Word("sdoc:documents"@)], Place::Iri, seq![]),
        gives(Place::Iri, subject, "> ;\n    sdoc:documentationKind sdoc:RustdocMarkdown ;\n    rdf:value "@, seq![Token::Iri(subject), Token::Mark(';'), Token::Word("sdoc:documentationKind"@), Token::Word("sdoc:RustdocMarkdown"@), Token::Mark(';'), Token::Word("rdf:value"@)], Place::Outside, seq![]),
        gives(Place::Iri, subject, "> ;\n    sdoc:grantsDoAuthority false .\n  <"@, seq![Token::Iri(subject), Token::Mark(';'), Token::Word("sdoc:grantsDoAuthority"@), Token::Word("false"@), Token::Mark('.')], Place::Iri, seq![]),
{
    assert(gives(Place::Iri, fragment, "> a sdoc:DocFragment, sdoc:DocumentationEvidence, prov:Entity ;\n    sdoc:documents <"@, seq![Token::Iri(fragment), Token::Word("a"@), Token::Word("sdoc:DocFragment"@), Token::Mark(','), Token::Word("sdoc:DocumentationEvidence"@), Token::Mark(','), Token::Word("prov:Entity"@), Token::Mark(';'), Token::Word("sdoc:documents"@)], Place::Iri, seq![])) by {
        let words = "> a sdoc:DocFragment, sdoc:DocumentationEvidence, prov:Entity ;\n    sdoc:documents <"@;
        let out = seq![Token::Iri(fragment), Token::Word("a"@), Token::Word("sdoc:DocFragment"@), Token::Mark(','), Token::Word("sdoc:DocumentationEvidence"@), Token::Mark(','), Token::Word("prov:Entity"@), Token::Mark(';'), Token::Word("sdoc:documents"@)];
        reveal_strlit("> a sdoc:DocFragment, sdoc:DocumentationEvidence, prov:Entity ;\n    sdoc:documents <");
        reveal_strlit("a");
        reveal_strlit("sdoc:DocFragment");
        reveal_strlit("sdoc:DocumentationEvidence");
        reveal_strlit("prov:Entity");
        reveal_strlit("sdoc:documents");
        reveal_with_fuel(yields, 13);
        assert(yields(Place::Outside, 4, words, 72, out, 8, Place::Iri));
        assert(yields(Place::Outside, 10, words, 60, out, 6, Place::Iri));
        assert(yields(Place::Outside, 26, words, 48, out, 4, Place::Iri));
        assert(yields(Place::Outside, 14, words, 36, out, 4, Place::Iri));
        assert(yields(Place::Outside, 2, words, 24, out, 4, Place::Iri));
        assert(yields(Place::Outside, 8, words, 12, out, 2, Place::Iri));
        lemma_yields_ending(Place::Iri, fragment, words, out, Place::Iri);
    }
    assert(gives(Place::Iri, subject, "> ;\n    sdoc:documentationKind sdoc:RustdocMarkdown ;\n    rdf:value "@, seq![Token::Iri(subject), Token::Mark(';'), Token::Word("sdoc:documentationKind"@), Token::Word("sdoc:RustdocMarkdown"@), Token::Mark(';'), Token::Word("rdf:value"@)], Place::Outside, seq![])) by {
        let words = "> ;\n    sdoc:documentationKind sdoc:RustdocMarkdown ;\n    rdf:value "@;
        let out = seq![Token::Iri(subject), Token::Mark(';'), Token::Word("sdoc:documentationKind"@), Token::Word("sdoc:RustdocMarkdown"@), Token::Mark(';'), Token::Word("rdf:value"@)];
        reveal_strlit("> ;\n    sdoc:documentationKind sdoc:RustdocMarkdown ;\n    rdf:value ");
        reveal_strlit("sdoc:documentationKind");
        reveal_strlit("sdoc:RustdocMarkdown");
        reveal_strlit("rdf:value");
        reveal_with_fuel(yields, 13);
        assert(yields(Place::Outside, 0, words, 56, out, 5, Place::Outside));
        assert(yields(Place::Outside, 13, words, 44, out, 3, Place::Outside));
        assert(yields(Place::Outside, 1, words, 32, out, 3, Place::Outside));
        assert(yields(Place::Outside, 12, words, 20, out, 2, Place::Outside));
        assert(yields(Place::Outside, 0, words, 8, out, 2, Place::Outside));
        lemma_yields_ending(Place::Iri, subject, words, out, Place::Outside);
    }
    assert(gives(Place::Iri, subject, "> ;\n    sdoc:grantsDoAuthority false .\n  <"@, seq![Token::Iri(subject), Token::Mark(';'), Token::Word("sdoc:grantsDoAuthority"@), Token::Word("false"@), Token::Mark('.')], Place::Iri, seq![])) by {
        let words = "> ;\n    sdoc:grantsDoAuthority false .\n  <"@;
        let out = seq![Token::Iri(subject), Token::Mark(';'), Token::Word("sdoc:grantsDoAuthority"@), Token::Word("false"@), Token::Mark('.')];
        reveal_strlit("> ;\n    sdoc:grantsDoAuthority false .\n  <");
        reveal_strlit("sdoc:grantsDoAuthority");
        reveal_strlit("false");
        reveal_with_fuel(yields, 19);
        assert(yields(Place::Outside, 22, words, 30, out, 2, Place::Iri));
        assert(yields(Place::Outside, 10, words, 18, out, 2, Place::Iri));
        lemma_yields_ending(Place::Iri, subject, words, out, Place::Iri);
    }
}

proof fn lemma_docs_read(revision: Seq<char>, id: Seq<char>, item: JsonTree, docs: Seq<char>)
    requires
        item.member("docs"@) == Some(JsonTree::Text(docs)),
    ensures
        ({
            let subject = iri::item_iri_text(revision, id);
            let fragment = subject + "/doc"@;
            let dataset = graph::dataset_iri(revision);
            gives(Place::Outside, seq![], graph::docs_statements(revision, id, item), seq![Token::Iri(fragment), Token::Word("a"@), Token::Word("sdoc:DocFragment"@), Token::Mark(','), Token::Word("sdoc:DocumentationEvidence"@), Token::Mark(','), Token::Word("prov:Entity"@), Token::Mark(';'), Token::Word("sdoc:documents"@), Token::Iri(subject), Token::Mark(';'), Token::Word("sdoc:documentationKind"@), Token::Word("sdoc:RustdocMarkdown"@), Token::Mark(';'), Token::Word("rdf:value"@), Token::Literal(blanked_text(docs)), Token::Mark(';'), Token::Word("prov:wasDerivedFrom"@), Token::Iri(subject), Token::Mark(';'), Token::Word("sdoc:grantsDoAuthority"@), Token::Word("false"@), Token::Mark('.'), Token::Iri(dataset), Token::Word("sdoc:hasEvidence"@), Token::Iri(fragment), Token::Mark('.')], Place::Outside, seq![])
        }),
{
    broadcast use lemma_gives_join;

    let subject = iri::item_iri_text(revision, id);
    let fragment = subject + "/doc"@;
    let dataset = graph::dataset_iri(revision);
    lemma_resources_within(revision);
    lemma_item_within(revision, id);
    lemma_docs_words(fragment, subject);
    lemma_shared_words(dataset);
    lemma_shared_words(fragment);
    lemma_iri_gives(fragment);
    lemma_iri_gives(subject);
    lemma_iri_gives(dataset);
    lemma_literal_gives(docs);
    let chunks = Seq::<Token>::empty() + Seq::<Token>::empty() + seq![Token::Iri(fragment), Token::Word("a"@), Token::Word("sdoc:DocFragment"@), Token::Mark(','), Token::Word("sdoc:DocumentationEvidence"@), Token::Mark(','), Token::Word("prov:Entity"@), Token::Mark(';'), Token::Word("sdoc:documents"@)] + Seq::<Token>::empty() + seq![Token::Iri(subject), Token::Mark(';'), Token::Word("sdoc:documentationKind"@), Token::Word("sdoc:RustdocMarkdown"@), Token::Mark(';'), Token::Word("rdf:value"@)] + seq![Token::Literal(blanked_text(docs))] + seq![Token::Mark(';'), Token::Word("prov:wasDerivedFrom"@)] + Seq::<Token>::empty() + seq![Token::Iri(subject), Token::Mark(';'), Token::Word("sdoc:grantsDoAuthority"@), Token::Word("false"@), Token::Mark('.')] + Seq::<Token>::empty() + seq![Token::Iri(dataset), Token::Word("sdoc:hasEvidence"@)] + Seq::<Token>::empty() + seq![Token::Iri(fragment), Token::Mark('.')];
    assert(gives(Place::Outside, seq![], graph::docs_statements(revision, id, item), chunks, Place::Outside, seq![]));
    assert(chunks =~= seq![Token::Iri(fragment), Token::Word("a"@), Token::Word("sdoc:DocFragment"@), Token::Mark(','), Token::Word("sdoc:DocumentationEvidence"@), Token::Mark(','), Token::Word("prov:Entity"@), Token::Mark(';'), Token::Word("sdoc:documents"@), Token::Iri(subject), Token::Mark(';'), Token::Word("sdoc:documentationKind"@), Token::Word("sdoc:RustdocMarkdown"@), Token::Mark(';'), Token::Word("rdf:value"@), Token::Literal(blanked_text(docs)), Token::Mark(';'), Token::Word("prov:wasDerivedFrom"@), Token::Iri(subject), Token::Mark(';'), Token::Word("sdoc:grantsDoAuthority"@), Token::Word("false"@), Token::Mark('.'), Token::Iri(dataset), Token::Word("sdoc:hasEvidence"@), Token::Iri(fragment), Token::Mark('.')]);
}

proof fn lemma_root_words(subject: Seq<char>)
    ensures
        gives(Place::Iri, subject, "> sdoc:rootItem <"@, seq![Token::Iri(subject), Token::Word("sdoc:rootItem"@)], Place::Iri, seq![]),
{
    assert(gives(Place::Iri, subject, "> sdoc:rootItem <"@, seq![Token::Iri(subject), Token::Word("sdoc:rootItem"@)], Place::Iri, seq![])) by {
        let words = "> sdoc:rootItem <"@;
        let out = seq![Token::Iri(subject), Token::Word("sdoc:rootItem"@)];
        reveal_strlit("> sdoc:rootItem <");
        reveal_strlit("sdoc:rootItem");
        reveal_with_fuel(yields, 18);
        lemma_yields_ending(Place::Iri, subject, words, out, Place::Iri);
    }
}

proof fn lemma_root_read(document: JsonTree, revision: Seq<char>, root: JsonTree)
    requires
        document.member("root"@) == Some(root),
        rustdoc::has_text(root),
    ensures
        ({
            let subject = graph::dataset_iri(revision);
            let item = iri::item_iri_text(revision, rustdoc::scalar_text(root));
            gives(Place::Outside, seq![], graph::root_statements(document, revision), seq![Token::Iri(subject), Token::Word("sdoc:rootItem"@), Token::Iri(item), Token::Mark('.')], Place::Outside, seq![])
        }),
{
    broadcast use lemma_gives_join;

    let subject = graph::dataset_iri(revision);
    let item = iri::item_iri_text(revision, rustdoc::scalar_text(root));
    lemma_resources_within(revision);
    lemma_item_within(revision, rustdoc::scalar_text(root));
    lemma_root_words(subject);
    lemma_shared_words(item);
    lemma_iri_gives(subject);
    lemma_iri_gives(item);
    let chunks = Seq::<Token>::empty() + Seq::<Token>::empty() + seq![Token::Iri(subject), Token::Word("sdoc:rootItem"@)] + Seq::<Token>::empty() + seq![Token::Iri(item), Token::Mark('.')];
    assert(gives(Place::Outside, seq![], graph::root_statements(document, revision), chunks, Place::Outside, seq![]));
    assert(chunks =~= seq![Token::Iri(subject), Token::Word("sdoc:rootItem"@), Token::Iri(item), Token::Mark('.')]);
}

proof fn lemma_name_words()
    ensures
        gives(Place::Outside, seq![], "    sdoc:name "@, seq![Token::Word("sdoc:name"@)], Place::Outside, seq![]),
{
    assert(gives(Place::Outside, seq![], "    sdoc:name "@, seq![Token::Word("sdoc:name"@)], Place::Outside, seq![])) by {
        let words = "    sdoc:name "@;
        let out = seq![Token::Word("sdoc:name"@)];
        reveal_strlit("    sdoc:name ");
        reveal_strlit("sdoc:name");
        reveal_with_fuel(yields, 15);
        lemma_yields_gives(Place::Outside, words, out, Place::Outside);
    }
}

proof fn lemma_name_read(item: JsonTree, name: Seq<char>)
    requires
        item.member("name"@) == Some(JsonTree::Text(name)),
    ensures
        gives(Place::Outside, seq![], graph::name_property(item), seq![Token::Word("sdoc:name"@), Token::Literal(blanked_text(name)), Token::Mark(';')], Place::Outside, seq![]),
{
    broadcast use lemma_gives_join;

    lemma_name_words();
    lemma_shared_words(seq![]);
    lemma_literal_gives(name);
    let chunks = seq![Token::Word("sdoc:name"@)] + seq![Token::Literal(blanked_text(name))] + seq![Token::Mark(';')];
    assert(gives(Place::Outside, seq![], graph::name_property(item), chunks, Place::Outside, seq![]));
    assert(chunks =~= seq![Token::Word("sdoc:name"@), Token::Literal(blanked_text(name)), Token::Mark(';')]);
}

proof fn lemma_path_words()
    ensures
        gives(Place::Outside, seq![], "    sdoc:fullyQualifiedPath "@, seq![Token::Word("sdoc:fullyQualifiedPath"@)], Place::Outside, seq![]),
{
    assert(gives(Place::Outside, seq![], "    sdoc:fullyQualifiedPath "@, seq![Token::Word("sdoc:fullyQualifiedPath"@)], Place::Outside, seq![])) by {
        let words = "    sdoc:fullyQualifiedPath "@;
        let out = seq![Token::Word("sdoc:fullyQualifiedPath"@)];
        reveal_strlit("    sdoc:fullyQualifiedPath ");
        reveal_strlit("sdoc:fullyQualifiedPath");
        reveal_with_fuel(yields, 17);
        assert(yields(Place::Outside, 12, words, 16, out, 0, Place::Outside));
        lemma_yields_gives(Place::Outside, words, out, Place::Outside);
    }
}

proof fn lemma_path_read(document: JsonTree, id: Seq<char>, path: Seq<char>)
    requires
        rustdoc::path_text(document, id) == Some(path),
    ensures
        gives(Place::Outside, seq![], graph::path_property(document, id), seq![Token::Word("sdoc:fullyQualifiedPath"@), Token::Literal(blanked_text(path)), Token::Mark(';')], Place::Outside, seq![]),
{
    broadcast use lemma_gives_join;

    lemma_path_words();
    lemma_shared_words(seq![]);
    lemma_literal_gives(path);
    let chunks = seq![Token::Word("sdoc:fullyQualifiedPath"@)] + seq![Token::Literal(blanked_text(path))] + seq![Token::Mark(';')];
    assert(gives(Place::Outside, seq![], graph::path_property(document, id), chunks, Place::Outside, seq![]));
    assert(chunks =~= seq![Token::Word("sdoc:fullyQualifiedPath"@), Token::Literal(blanked_text(path)), Token::Mark(';')]);
}

proof fn lemma_properties_words(subject: Seq<char>, origin: Seq<char>)
    ensures
        gives(Place::Iri, subject, "> a sdoc:RustItem, sdoc:SourceEvidence, prov:Entity ;\n    sdoc:localId "@, seq![Token::Iri(subject), Token::Word("a"@), Token::Word("sdoc:RustItem"@), Token::Mark(','), Token::Word("sdoc:SourceEvidence"@), Token::Mark(','), Token::Word("prov:Entity"@), Token::Mark(';'), Token::Word("sdoc:localId"@)], Place::Outside, seq![]),
        gives(Place::Outside, seq![], " ;\n    sdoc:itemKind "@, seq![Token::Mark(';'), Token::Word("sdoc:itemKind"@)], Place::Outside, seq![]),
        gives(Place::Outside, seq![], " ;\n    sdoc:visibility "@, seq![Token::Mark(';'), Token::Word("sdoc:visibility"@)], Place::Outside, seq![]),
        gives(Place::Outside, seq![], " ;\n    dct:source "@, seq![Token::Mark(';'), Token::Word("dct:source"@)], Place::Outside, seq![]),
        gives(Place::Iri, origin, "> ;\n"@, seq![Token::Iri(origin), Token::Mark(';')], Place::Outside, seq![]),
        gives(Place::Outside, seq![], "    sdoc:grantsDoAuthority false .\n"@, seq![Token::Word("sdoc:grantsDoAuthority"@), Token::Word("false"@), Token::Mark('.')], Place::Outside, seq![]),
{
    assert(gives(Place::Iri, subject, "> a sdoc:RustItem, sdoc:SourceEvidence, prov:Entity ;\n    sdoc:localId "@, seq![Token::Iri(subject), Token::Word("a"@), Token::Word("sdoc:RustItem"@), Token::Mark(','), Token::Word("sdoc:SourceEvidence"@), Token::Mark(','), Token::Word("prov:Entity"@), Token::Mark(';'), Token::Word("sdoc:localId"@)], Place::Outside, seq![])) by {
        let words = "> a sdoc:RustItem, sdoc:SourceEvidence, prov:Entity ;\n    sdoc:localId "@;
        let out = seq![Token::Iri(subject), Token::Word("a"@), Token::Word("sdoc:RustItem"@), Token::Mark(','), Token::Word("sdoc:SourceEvidence"@), Token::Mark(','), Token::Word("prov:Entity"@), Token::Mark(';'), Token::Word("sdoc:localId"@)];
        reveal_strlit("> a sdoc:RustItem, sdoc:SourceEvidence, prov:Entity ;\n    sdoc:localId ");
        reveal_strlit("a");
        reveal_strlit("sdoc:RustItem");
        reveal_strlit("sdoc:SourceEvidence");
        reveal_strlit("prov:Entity");
        reveal_strlit("sdoc:localId");
        reveal_with_fuel(yields, 13);
        assert(yields(Place::Outside, 1, words, 59, out, 8, Place::Outside));
        assert(yields(Place::Outside, 7, words, 47, out, 6, Place::Outside));
        assert(yields(Place::Outside, 16, words, 35, out, 4, Place::Outside));
        assert(yields(Place::Outside, 4, words, 23, out, 4, Place::Outside));
        assert(yields(Place::Outside, 7, words, 11, out, 2, Place::Outside));
        lemma_yields_ending(Place::Iri, subject, words, out, Place::Outside);
    }
    assert(gives(Place::Outside, seq![], " ;\n    sdoc:itemKind "@, seq![Token::Mark(';'), Token::Word("sdoc:itemKind"@)], Place::Outside, seq![])) by {
        let words = " ;\n    sdoc:itemKind "@;
        let out = seq![Token::Mark(';'), Token::Word("sdoc:itemKind"@)];
        reveal_strlit(" ;\n    sdoc:itemKind ");
        reveal_strlit("sdoc:itemKind");
        reveal_with_fuel(yields, 13);
        assert(yields(Place::Outside, 2, words, 9, out, 1, Place::Outside));
        lemma_yields_gives(Place::Outside, words, out, Place::Outside);
    }
    assert(gives(Place::Outside, seq![], " ;\n    sdoc:visibility "@, seq![Token::Mark(';'), Token::Word("sdoc:visibility"@)], Place::Outside, seq![])) by {
        let words = " ;\n    sdoc:visibility "@;
        let out = seq![Token::Mark(';'), Token::Word("sdoc:visibility"@)];
        reveal_strlit(" ;\n    sdoc:visibility ");
        reveal_strlit("sdoc:visibility");
        reveal_with_fuel(yields, 13);
        assert(yields(Place::Outside, 4, words, 11, out, 1, Place::Outside));
        lemma_yields_gives(Place::Outside, words, out, Place::Outside);
    }
    assert(gives(Place::Outside, seq![], " ;\n    dct:source "@, seq![Token::Mark(';'), Token::Word("dct:source"@)], Place::Outside, seq![])) by {
        let words = " ;\n    dct:source "@;
        let out = seq![Token::Mark(';'), Token::Word("dct:source"@)];
        reveal_strlit(" ;\n    dct:source ");
        reveal_strlit("dct:source");
        reveal_with_fuel(yields, 19);
        lemma_yields_gives(Place::Outside, words, out, Place::Outside);
    }
    assert(gives(Place::Iri, origin, "> ;\n"@, seq![Token::Iri(origin), Token::Mark(';')], Place::Outside, seq![])) by {
        let words = "> ;\n"@;
        let out = seq![Token::Iri(origin), Token::Mark(';')];
        reveal_strlit("> ;\n");
        reveal_with_fuel(yields, 5);
        lemma_yields_ending(Place::Iri, origin, words, out, Place::Outside);
    }
    assert(gives(Place::Outside, seq![], "    sdoc:grantsDoAuthority false .\n"@, seq![Token::Word("sdoc:grantsDoAuthority"@), Token::Word("false"@), Token::Mark('.')], Place::Outside, seq![])) by {
        let words = "    sdoc:grantsDoAuthority false .\n"@;
        let out = seq![Token::Word("sdoc:grantsDoAuthority"@), Token::Word("false"@), Token::Mark('.')];
        reveal_strlit("    sdoc:grantsDoAuthority false .\n");
        reveal_strlit("sdoc:grantsDoAuthority");
        reveal_strlit("false");
        reveal_with_fuel(yields, 13);
        assert(yields(Place::Outside, 19, words, 23, out, 0, Place::Outside));
        assert(yields(Place::Outside, 7, words, 11, out, 0, Place::Outside));
        lemma_yields_gives(Place::Outside, words, out, Place::Outside);
    }
}

spec fn name_tokens(item: JsonTree) -> Seq<Token> {
    match item.member("name"@) {
        Some(JsonTree::Text(name)) => seq![
            Token::Word("sdoc:name"@),
            Token::Literal(blanked_text(name)),
            Token::Mark(';'),
        ],
        _ => seq![],
    }
}

spec fn path_tokens(document: JsonTree, id: Seq<char>) -> Seq<Token> {
    match rustdoc::path_text(document, id) {
        Some(path) => seq![
            Token::Word("sdoc:fullyQualifiedPath"@),
            Token::Literal(blanked_text(path)),
            Token::Mark(';'),
        ],
        None => seq![],
    }
}

proof fn lemma_options_read(document: JsonTree, id: Seq<char>, item: JsonTree)
    ensures
        gives(
            Place::Outside,
            seq![],
            graph::name_property(item),
            name_tokens(item),
            Place::Outside,
            seq![],
        ),
        gives(
            Place::Outside,
            seq![],
            graph::path_property(document, id),
            path_tokens(document, id),
            Place::Outside,
            seq![],
        ),
{
    lemma_nothing_gives(Place::Outside, seq![]);
    if let Some(JsonTree::Text(name)) = item.member("name"@) {
        lemma_name_read(item, name);
    }
    if let Some(path) = rustdoc::path_text(document, id) {
        lemma_path_read(document, id, path);
    }
}

proof fn lemma_properties_read(document: JsonTree, revision: Seq<char>, id: Seq<char>, item: JsonTree)
    ensures
        ({
            let subject = iri::item_iri_text(revision, id);
            let origin = graph::revision_iri(revision);
            let dataset = graph::dataset_iri(revision);
            gives(
                Place::Outside,
                seq![],
                graph::item_properties(document, revision, id, item),
                seq![Token::Iri(subject), Token::Word("a"@), Token::Word("sdoc:RustItem"@), Token::Mark(','), Token::Word("sdoc:SourceEvidence"@), Token::Mark(','), Token::Word("prov:Entity"@), Token::Mark(';'), Token::Word("sdoc:localId"@), Token::Literal(blanked_text(id)), Token::Mark(';'), Token::Word("sdoc:itemKind"@), Token::Literal(blanked_text(rustdoc::kind_text(item))), Token::Mark(';'), Token::Word("sdoc:visibility"@), Token::Literal(blanked_text(rustdoc::visibility_text(item))), Token::Mark(';'), Token::Word("dct:source"@), Token::Literal(blanked_text("rustdoc-json:item:"@ + id)), Token::Mark(';'), Token::Word("prov:wasDerivedFrom"@), Token::Iri(origin), Token::Mark(';')] + name_tokens(item) + path_tokens(document, id) + seq![Token::Word("sdoc:grantsDoAuthority"@), Token::Word("false"@), Token::Mark('.'), Token::Iri(dataset), Token::Word("sdoc:hasEvidence"@), Token::Iri(subject), Token::Mark('.')],
                Place::Outside,
                seq![],
            )
        }),
{
    broadcast use lemma_gives_join;

    let subject = iri::item_iri_text(revision, id);
    let origin = graph::revision_iri(revision);
    let dataset = graph::dataset_iri(revision);
    let named = name_tokens(item);
    let located = path_tokens(document, id);
    lemma_resources_within(revision);
    lemma_item_within(revision, id);
    lemma_properties_words(subject, origin);
    lemma_shared_words(dataset);
    lemma_shared_words(subject);
    lemma_options_read(document, id, item);
    lemma_iri_gives(subject);
    lemma_iri_gives(origin);
    lemma_iri_gives(dataset);
    lemma_literal_gives(id);
    lemma_literal_gives(rustdoc::kind_text(item));
    lemma_literal_gives(rustdoc::visibility_text(item));
    lemma_literal_gives("rustdoc-json:item:"@ + id);
    let chunks = Seq::<Token>::empty() + Seq::<Token>::empty() + seq![Token::Iri(subject), Token::Word("a"@), Token::Word("sdoc:RustItem"@), Token::Mark(','), Token::Word("sdoc:SourceEvidence"@), Token::Mark(','), Token::Word("prov:Entity"@), Token::Mark(';'), Token::Word("sdoc:localId"@)] + seq![Token::Literal(blanked_text(id))] + seq![Token::Mark(';'), Token::Word("sdoc:itemKind"@)] + seq![Token::Literal(blanked_text(rustdoc::kind_text(item)))] + seq![Token::Mark(';'), Token::Word("sdoc:visibility"@)] + seq![Token::Literal(blanked_text(rustdoc::visibility_text(item)))] + seq![Token::Mark(';'), Token::Word("dct:source"@)] + seq![Token::Literal(blanked_text("rustdoc-json:item:"@ + id))] + seq![Token::Mark(';'), Token::Word("prov:wasDerivedFrom"@)] + Seq::<Token>::empty() + seq![Token::Iri(origin), Token::Mark(';')] + named + located + seq![Token::Word("sdoc:grantsDoAuthority"@), Token::Word("false"@), Token::Mark('.')] + Seq::<Token>::empty() + Seq::<Token>::empty() + seq![Token::Iri(dataset), Token::Word("sdoc:hasEvidence"@)] + Seq::<Token>::empty() + seq![Token::Iri(subject), Token::Mark('.')];
    assert(gives(
        Place::Outside,
        seq![],
        graph::item_properties(document, revision, id, item),
        chunks,
        Place::Outside,
        seq![],
    ));
    assert(chunks =~= seq![Token::Iri(subject), Token::Word("a"@), Token::Word("sdoc:RustItem"@), Token::Mark(','), Token::Word("sdoc:SourceEvidence"@), Token::Mark(','), Token::Word("prov:Entity"@), Token::Mark(';'), Token::Word("sdoc:localId"@), Token::Literal(blanked_text(id)), Token::Mark(';'), Token::Word("sdoc:itemKind"@), Token::Literal(blanked_text(rustdoc::kind_text(item))), Token::Mark(';'), Token::Word("sdoc:visibility"@), Token::Literal(blanked_text(rustdoc::visibility_text(item))), Token::Mark(';'), Token::Word("dct:source"@), Token::Literal(blanked_text("rustdoc-json:item:"@ + id)), Token::Mark(';'), Token::Word("prov:wasDerivedFrom"@), Token::Iri(origin), Token::Mark(';')] + named + located + seq![Token::Word("sdoc:grantsDoAuthority"@), Token::Word("false"@), Token::Mark('.'), Token::Iri(dataset), Token::Word("sdoc:hasEvidence"@), Token::Iri(subject), Token::Mark('.')]);
}

// What a reader learns.

proof fn lemma_revision_exactly(repository: Seq<char>, revision: Seq<char>)
    ensures
        ({
            let subject = graph::revision_iri(revision);
            exactly(
                graph::revision_statements(repository, revision),
                seq![
                    about(subject, "a"@, Token::Word("sdoc:RevisionBoundSubject"@)),
                    about(subject, "a"@, Token::Word("prov:Entity"@)),
                    about(subject, "sdoc:repository"@, Token::Literal(blanked_text(repository))),
                    about(subject, "sdoc:revision"@, Token::Literal(blanked_text(revision))),
                    about(subject, "sdoc:grantsDoAuthority"@, Token::Word("false"@)),
                ],
            )
        }),
{
    let subject = graph::revision_iri(revision);
    let tokens = seq![Token::Iri(subject), Token::Word("a"@), Token::Word("sdoc:RevisionBoundSubject"@), Token::Mark(','), Token::Word("prov:Entity"@), Token::Mark(';'), Token::Word("sdoc:repository"@), Token::Literal(blanked_text(repository)), Token::Mark(';'), Token::Word("sdoc:revision"@), Token::Literal(blanked_text(revision)), Token::Mark(';'), Token::Word("sdoc:grantsDoAuthority"@), Token::Word("false"@), Token::Mark('.')];
    let out = seq![
        about(subject, "a"@, Token::Word("sdoc:RevisionBoundSubject"@)),
        about(subject, "a"@, Token::Word("prov:Entity"@)),
        about(subject, "sdoc:repository"@, Token::Literal(blanked_text(repository))),
        about(subject, "sdoc:revision"@, Token::Literal(blanked_text(revision))),
        about(subject, "sdoc:grantsDoAuthority"@, Token::Word("false"@)),
    ];
    lemma_revision_read(repository, revision);
    assert(says(None, None, tokens, 0, out, 0, None)) by {
        reveal_with_fuel(says, 16);
    }
    lemma_says_conveys(None, tokens, out, None);
    lemma_exactly(graph::revision_statements(repository, revision), tokens, out);
}

/// What is read of the revision, exactly: its identities, and that it grants no authority.
pub proof fn law_revision_is_told(repository: Seq<char>, revision: Seq<char>)
    ensures
        ({
            let subject = graph::revision_iri(revision);
            triples_of(graph::revision_statements(repository, revision)) == seq![
                about(subject, "a"@, Token::Word("sdoc:RevisionBoundSubject"@)),
                about(subject, "a"@, Token::Word("prov:Entity"@)),
                about(subject, "sdoc:repository"@, Token::Literal(blanked_text(repository))),
                about(subject, "sdoc:revision"@, Token::Literal(blanked_text(revision))),
                about(subject, "sdoc:grantsDoAuthority"@, Token::Word("false"@)),
            ]
        }),
{
    let subject = graph::revision_iri(revision);
    let out = seq![
        about(subject, "a"@, Token::Word("sdoc:RevisionBoundSubject"@)),
        about(subject, "a"@, Token::Word("prov:Entity"@)),
        about(subject, "sdoc:repository"@, Token::Literal(blanked_text(repository))),
        about(subject, "sdoc:revision"@, Token::Literal(blanked_text(revision))),
        about(subject, "sdoc:grantsDoAuthority"@, Token::Word("false"@)),
    ];
    lemma_revision_exactly(repository, revision);
    lemma_exactly_triples(graph::revision_statements(repository, revision), out);
}

proof fn lemma_dataset_exactly(repository: Seq<char>, revision: Seq<char>, version: u64)
    ensures
        ({
            let subject = graph::dataset_iri(revision);
            let origin = graph::revision_iri(revision);
            let digits = text::decimal(version as nat);
            exactly(
                graph::dataset_statements(repository, revision, version),
                seq![
                    about(subject, "a"@, Token::Word("sdoc:SemanticDocumentationDataset"@)),
                    about(subject, "a"@, Token::Word("prov:Entity"@)),
                    about(subject, "sdoc:repository"@, Token::Literal(blanked_text(repository))),
                    about(subject, "sdoc:revision"@, Token::Literal(blanked_text(revision))),
                    about(subject, "sdoc:sourceGraph"@, Token::Literal(blanked_text(graph::source_graph_iri(revision)))),
                    about(subject, "sdoc:documentationGraph"@, Token::Literal(blanked_text(graph::docs_graph_iri(revision)))),
                    about(subject, "sdoc:extractor"@, Token::Literal("rustdoc-json"@)),
                    about(subject, "sdoc:rustdocFormatVersion"@, Token::Word(digits)),
                    about(subject, "sdoc:standing"@, Token::Literal("PARTIAL_ALIVE"@)),
                    about(subject, "prov:wasDerivedFrom"@, Token::Iri(origin)),
                    about(subject, "sdoc:grantsDoAuthority"@, Token::Word("false"@)),
                ],
            )
        }),
{
    let subject = graph::dataset_iri(revision);
    let origin = graph::revision_iri(revision);
    let digits = text::decimal(version as nat);
    let tokens = seq![Token::Iri(subject), Token::Word("a"@), Token::Word("sdoc:SemanticDocumentationDataset"@), Token::Mark(','), Token::Word("prov:Entity"@), Token::Mark(';'), Token::Word("sdoc:repository"@), Token::Literal(blanked_text(repository)), Token::Mark(';'), Token::Word("sdoc:revision"@), Token::Literal(blanked_text(revision)), Token::Mark(';'), Token::Word("sdoc:sourceGraph"@), Token::Literal(blanked_text(graph::source_graph_iri(revision))), Token::Mark(';'), Token::Word("sdoc:documentationGraph"@), Token::Literal(blanked_text(graph::docs_graph_iri(revision))), Token::Mark(';'), Token::Word("sdoc:extractor"@), Token::Literal("rustdoc-json"@), Token::Mark(';'), Token::Word("sdoc:rustdocFormatVersion"@), Token::Word(digits), Token::Mark(';'), Token::Word("sdoc:standing"@), Token::Literal("PARTIAL_ALIVE"@), Token::Mark(';'), Token::Word("prov:wasDerivedFrom"@), Token::Iri(origin), Token::Mark(';'), Token::Word("sdoc:grantsDoAuthority"@), Token::Word("false"@), Token::Mark('.')];
    let out = seq![
        about(subject, "a"@, Token::Word("sdoc:SemanticDocumentationDataset"@)),
        about(subject, "a"@, Token::Word("prov:Entity"@)),
        about(subject, "sdoc:repository"@, Token::Literal(blanked_text(repository))),
        about(subject, "sdoc:revision"@, Token::Literal(blanked_text(revision))),
        about(subject, "sdoc:sourceGraph"@, Token::Literal(blanked_text(graph::source_graph_iri(revision)))),
        about(subject, "sdoc:documentationGraph"@, Token::Literal(blanked_text(graph::docs_graph_iri(revision)))),
        about(subject, "sdoc:extractor"@, Token::Literal("rustdoc-json"@)),
        about(subject, "sdoc:rustdocFormatVersion"@, Token::Word(digits)),
        about(subject, "sdoc:standing"@, Token::Literal("PARTIAL_ALIVE"@)),
        about(subject, "prov:wasDerivedFrom"@, Token::Iri(origin)),
        about(subject, "sdoc:grantsDoAuthority"@, Token::Word("false"@)),
    ];
    lemma_dataset_read(repository, revision, version);
    assert(says(None, None, tokens, 0, out, 0, None)) by {
        reveal_with_fuel(says, 34);
    }
    lemma_says_conveys(None, tokens, out, None);
    lemma_exactly(graph::dataset_statements(repository, revision, version), tokens, out);
}

/// What is read of the dataset, exactly: its identities, its two graphs, the format version, its
/// standing and the revision that it is derived from.
pub proof fn law_dataset_is_told(repository: Seq<char>, revision: Seq<char>, version: u64)
    ensures
        ({
            let subject = graph::dataset_iri(revision);
            let origin = graph::revision_iri(revision);
            let digits = text::decimal(version as nat);
            triples_of(graph::dataset_statements(repository, revision, version)) == seq![
                about(subject, "a"@, Token::Word("sdoc:SemanticDocumentationDataset"@)),
                about(subject, "a"@, Token::Word("prov:Entity"@)),
                about(subject, "sdoc:repository"@, Token::Literal(blanked_text(repository))),
                about(subject, "sdoc:revision"@, Token::Literal(blanked_text(revision))),
                about(subject, "sdoc:sourceGraph"@, Token::Literal(blanked_text(graph::source_graph_iri(revision)))),
                about(subject, "sdoc:documentationGraph"@, Token::Literal(blanked_text(graph::docs_graph_iri(revision)))),
                about(subject, "sdoc:extractor"@, Token::Literal("rustdoc-json"@)),
                about(subject, "sdoc:rustdocFormatVersion"@, Token::Word(digits)),
                about(subject, "sdoc:standing"@, Token::Literal("PARTIAL_ALIVE"@)),
                about(subject, "prov:wasDerivedFrom"@, Token::Iri(origin)),
                about(subject, "sdoc:grantsDoAuthority"@, Token::Word("false"@)),
            ]
        }),
{
    let subject = graph::dataset_iri(revision);
    let origin = graph::revision_iri(revision);
    let digits = text::decimal(version as nat);
    let out = seq![
        about(subject, "a"@, Token::Word("sdoc:SemanticDocumentationDataset"@)),
        about(subject, "a"@, Token::Word("prov:Entity"@)),
        about(subject, "sdoc:repository"@, Token::Literal(blanked_text(repository))),
        about(subject, "sdoc:revision"@, Token::Literal(blanked_text(revision))),
        about(subject, "sdoc:sourceGraph"@, Token::Literal(blanked_text(graph::source_graph_iri(revision)))),
        about(subject, "sdoc:documentationGraph"@, Token::Literal(blanked_text(graph::docs_graph_iri(revision)))),
        about(subject, "sdoc:extractor"@, Token::Literal("rustdoc-json"@)),
        about(subject, "sdoc:rustdocFormatVersion"@, Token::Word(digits)),
        about(subject, "sdoc:standing"@, Token::Literal("PARTIAL_ALIVE"@)),
        about(subject, "prov:wasDerivedFrom"@, Token::Iri(origin)),
        about(subject, "sdoc:grantsDoAuthority"@, Token::Word("false"@)),
    ];
    lemma_dataset_exactly(repository, revision, version);
    lemma_exactly_triples(graph::dataset_statements(repository, revision, version), out);
}

proof fn lemma_root_exactly(document: JsonTree, revision: Seq<char>, root: JsonTree)
    requires
        document.member("root"@) == Some(root),
        rustdoc::has_text(root),
    ensures
        ({
            let subject = graph::dataset_iri(revision);
            let item = iri::item_iri_text(revision, rustdoc::scalar_text(root));
            exactly(
                graph::root_statements(document, revision),
                seq![
                    about(subject, "sdoc:rootItem"@, Token::Iri(item)),
                ],
            )
        }),
{
    let subject = graph::dataset_iri(revision);
    let item = iri::item_iri_text(revision, rustdoc::scalar_text(root));
    let tokens = seq![Token::Iri(subject), Token::Word("sdoc:rootItem"@), Token::Iri(item), Token::Mark('.')];
    let out = seq![
        about(subject, "sdoc:rootItem"@, Token::Iri(item)),
    ];
    lemma_root_read(document, revision, root);
    assert(says(None, None, tokens, 0, out, 0, None)) by {
        reveal_with_fuel(says, 5);
    }
    lemma_says_conveys(None, tokens, out, None);
    lemma_exactly(graph::root_statements(document, revision), tokens, out);
}

/// What is read of the root item, exactly, where the document names one.
pub proof fn law_root_is_told(document: JsonTree, revision: Seq<char>, root: JsonTree)
    requires
        document.member("root"@) == Some(root),
        rustdoc::has_text(root),
    ensures
        ({
            let subject = graph::dataset_iri(revision);
            let item = iri::item_iri_text(revision, rustdoc::scalar_text(root));
            triples_of(graph::root_statements(document, revision)) == seq![
                about(subject, "sdoc:rootItem"@, Token::Iri(item)),
            ]
        }),
{
    let subject = graph::dataset_iri(revision);
    let item = iri::item_iri_text(revision, rustdoc::scalar_text(root));
    let out = seq![
        about(subject, "sdoc:rootItem"@, Token::Iri(item)),
    ];
    lemma_root_exactly(document, revision, root);
    lemma_exactly_triples(graph::root_statements(document, revision), out);
}

proof fn lemma_link_exactly(revision: Seq<char>, id: Seq<char>, label: Seq<char>, value: JsonTree)
    requires
        rustdoc::has_text(value),
    ensures
        ({
            let subject = iri::item_iri_text(revision, id);
            let target = iri::item_iri_text(revision, rustdoc::scalar_text(value));
            let edge = subject + "/link/"@ + iri::segment_text(label);
            exactly(
                graph::link_statements(revision, id, label, value),
                seq![
                    about(subject, "sdoc:references"@, Token::Iri(target)),
                    about(edge, "a"@, Token::Word("sdoc:DocumentationReference"@)),
                    about(edge, "a"@, Token::Word("prov:Entity"@)),
                    about(edge, "sdoc:from"@, Token::Iri(subject)),
                    about(edge, "sdoc:to"@, Token::Iri(target)),
                    about(edge, "sdoc:linkLabel"@, Token::Literal(blanked_text(label))),
                    about(edge, "sdoc:grantsDoAuthority"@, Token::Word("false"@)),
                ],
            )
        }),
{
    let subject = iri::item_iri_text(revision, id);
    let target = iri::item_iri_text(revision, rustdoc::scalar_text(value));
    let edge = subject + "/link/"@ + iri::segment_text(label);
    let tokens = seq![Token::Iri(subject), Token::Word("sdoc:references"@), Token::Iri(target), Token::Mark('.'), Token::Iri(edge), Token::Word("a"@), Token::Word("sdoc:DocumentationReference"@), Token::Mark(','), Token::Word("prov:Entity"@), Token::Mark(';'), Token::Word("sdoc:from"@), Token::Iri(subject), Token::Mark(';'), Token::Word("sdoc:to"@), Token::Iri(target), Token::Mark(';'), Token::Word("sdoc:linkLabel"@), Token::Literal(blanked_text(label)), Token::Mark(';'), Token::Word("sdoc:grantsDoAuthority"@), Token::Word("false"@), Token::Mark('.')];
    let out = seq![
        about(subject, "sdoc:references"@, Token::Iri(target)),
        about(edge, "a"@, Token::Word("sdoc:DocumentationReference"@)),
        about(edge, "a"@, Token::Word("prov:Entity"@)),
        about(edge, "sdoc:from"@, Token::Iri(subject)),
        about(edge, "sdoc:to"@, Token::Iri(target)),
        about(edge, "sdoc:linkLabel"@, Token::Literal(blanked_text(label))),
        about(edge, "sdoc:grantsDoAuthority"@, Token::Word("false"@)),
    ];
    lemma_link_read(revision, id, label, value);
    assert(says(None, None, tokens, 0, out, 0, None)) by {
        reveal_with_fuel(says, 23);
    }
    lemma_says_conveys(None, tokens, out, None);
    lemma_exactly(graph::link_statements(revision, id, label, value), tokens, out);
}

/// What is read of a link that has a target, exactly: that the item refers to the target, and, by an
/// IRI of its own, from where to where the link goes and the whole of its label.
pub proof fn law_link_is_told(revision: Seq<char>, id: Seq<char>, label: Seq<char>, value: JsonTree)
    requires
        rustdoc::has_text(value),
    ensures
        ({
            let subject = iri::item_iri_text(revision, id);
            let target = iri::item_iri_text(revision, rustdoc::scalar_text(value));
            let edge = subject + "/link/"@ + iri::segment_text(label);
            triples_of(graph::link_statements(revision, id, label, value)) == seq![
                about(subject, "sdoc:references"@, Token::Iri(target)),
                about(edge, "a"@, Token::Word("sdoc:DocumentationReference"@)),
                about(edge, "a"@, Token::Word("prov:Entity"@)),
                about(edge, "sdoc:from"@, Token::Iri(subject)),
                about(edge, "sdoc:to"@, Token::Iri(target)),
                about(edge, "sdoc:linkLabel"@, Token::Literal(blanked_text(label))),
                about(edge, "sdoc:grantsDoAuthority"@, Token::Word("false"@)),
            ]
        }),
{
    let subject = iri::item_iri_text(revision, id);
    let target = iri::item_iri_text(revision, rustdoc::scalar_text(value));
    let edge = subject + "/link/"@ + iri::segment_text(label);
    let out = seq![
        about(subject, "sdoc:references"@, Token::Iri(target)),
        about(edge, "a"@, Token::Word("sdoc:DocumentationReference"@)),
        about(edge, "a"@, Token::Word("prov:Entity"@)),
        about(edge, "sdoc:from"@, Token::Iri(subject)),
        about(edge, "sdoc:to"@, Token::Iri(target)),
        about(edge, "sdoc:linkLabel"@, Token::Literal(blanked_text(label))),
        about(edge, "sdoc:grantsDoAuthority"@, Token::Word("false"@)),
    ];
    lemma_link_exactly(revision, id, label, value);
    lemma_exactly_triples(graph::link_statements(revision, id, label, value), out);
}

proof fn lemma_docs_exactly(revision: Seq<char>, id: Seq<char>, item: JsonTree, docs: Seq<char>)
    requires
        item.member("docs"@) == Some(JsonTree::Text(docs)),
    ensures
        ({
            let subject = iri::item_iri_text(revision, id);
            let fragment = subject + "/doc"@;
            let dataset = graph::dataset_iri(revision);
            exactly(
                graph::docs_statements(revision, id, item),
                seq![
                    about(fragment, "a"@, Token::Word("sdoc:DocFragment"@)),
                    about(fragment, "a"@, Token::Word("sdoc:DocumentationEvidence"@)),
                    about(fragment, "a"@, Token::Word("prov:Entity"@)),
                    about(fragment, "sdoc:documents"@, Token::Iri(subject)),
                    about(fragment, "sdoc:documentationKind"@, Token::Word("sdoc:RustdocMarkdown"@)),
                    about(fragment, "rdf:value"@, Token::Literal(blanked_text(docs))),
                    about(fragment, "prov:wasDerivedFrom"@, Token::Iri(subject)),
                    about(fragment, "sdoc:grantsDoAuthority"@, Token::Word("false"@)),
                    about(dataset, "sdoc:hasEvidence"@, Token::Iri(fragment)),
                ],
            )
        }),
{
    let subject = iri::item_iri_text(revision, id);
    let fragment = subject + "/doc"@;
    let dataset = graph::dataset_iri(revision);
    let tokens = seq![Token::Iri(fragment), Token::Word("a"@), Token::Word("sdoc:DocFragment"@), Token::Mark(','), Token::Word("sdoc:DocumentationEvidence"@), Token::Mark(','), Token::Word("prov:Entity"@), Token::Mark(';'), Token::Word("sdoc:documents"@), Token::Iri(subject), Token::Mark(';'), Token::Word("sdoc:documentationKind"@), Token::Word("sdoc:RustdocMarkdown"@), Token::Mark(';'), Token::Word("rdf:value"@), Token::Literal(blanked_text(docs)), Token::Mark(';'), Token::Word("prov:wasDerivedFrom"@), Token::Iri(subject), Token::Mark(';'), Token::Word("sdoc:grantsDoAuthority"@), Token::Word("false"@), Token::Mark('.'), Token::Iri(dataset), Token::Word("sdoc:hasEvidence"@), Token::Iri(fragment), Token::Mark('.')];
    let out = seq![
        about(fragment, "a"@, Token::Word("sdoc:DocFragment"@)),
        about(fragment, "a"@, Token::Word("sdoc:DocumentationEvidence"@)),
        about(fragment, "a"@, Token::Word("prov:Entity"@)),
        about(fragment, "sdoc:documents"@, Token::Iri(subject)),
        about(fragment, "sdoc:documentationKind"@, Token::Word("sdoc:RustdocMarkdown"@)),
        about(fragment, "rdf:value"@, Token::Literal(blanked_text(docs))),
        about(fragment, "prov:wasDerivedFrom"@, Token::Iri(subject)),
        about(fragment, "sdoc:grantsDoAuthority"@, Token::Word("false"@)),
        about(dataset, "sdoc:hasEvidence"@, Token::Iri(fragment)),
    ];
    lemma_docs_read(revision, id, item, docs);
    assert(says(None, None, tokens, 0, out, 0, None)) by {
        reveal_with_fuel(says, 28);
    }
    lemma_says_conveys(None, tokens, out, None);
    lemma_exactly(graph::docs_statements(revision, id, item), tokens, out);
}

/// What is read of an item's documentation, exactly: the whole of it, of which item it is, and that
/// the dataset holds it as evidence.
pub proof fn law_documentation_is_told(revision: Seq<char>, id: Seq<char>, item: JsonTree, docs: Seq<char>)
    requires
        item.member("docs"@) == Some(JsonTree::Text(docs)),
    ensures
        ({
            let subject = iri::item_iri_text(revision, id);
            let fragment = subject + "/doc"@;
            let dataset = graph::dataset_iri(revision);
            triples_of(graph::docs_statements(revision, id, item)) == seq![
                about(fragment, "a"@, Token::Word("sdoc:DocFragment"@)),
                about(fragment, "a"@, Token::Word("sdoc:DocumentationEvidence"@)),
                about(fragment, "a"@, Token::Word("prov:Entity"@)),
                about(fragment, "sdoc:documents"@, Token::Iri(subject)),
                about(fragment, "sdoc:documentationKind"@, Token::Word("sdoc:RustdocMarkdown"@)),
                about(fragment, "rdf:value"@, Token::Literal(blanked_text(docs))),
                about(fragment, "prov:wasDerivedFrom"@, Token::Iri(subject)),
                about(fragment, "sdoc:grantsDoAuthority"@, Token::Word("false"@)),
                about(dataset, "sdoc:hasEvidence"@, Token::Iri(fragment)),
            ]
        }),
{
    let subject = iri::item_iri_text(revision, id);
    let fragment = subject + "/doc"@;
    let dataset = graph::dataset_iri(revision);
    let out = seq![
        about(fragment, "a"@, Token::Word("sdoc:DocFragment"@)),
        about(fragment, "a"@, Token::Word("sdoc:DocumentationEvidence"@)),
        about(fragment, "a"@, Token::Word("prov:Entity"@)),
        about(fragment, "sdoc:documents"@, Token::Iri(subject)),
        about(fragment, "sdoc:documentationKind"@, Token::Word("sdoc:RustdocMarkdown"@)),
        about(fragment, "rdf:value"@, Token::Literal(blanked_text(docs))),
        about(fragment, "prov:wasDerivedFrom"@, Token::Iri(subject)),
        about(fragment, "sdoc:grantsDoAuthority"@, Token::Word("false"@)),
        about(dataset, "sdoc:hasEvidence"@, Token::Iri(fragment)),
    ];
    lemma_docs_exactly(revision, id, item, docs);
    lemma_exactly_triples(graph::docs_statements(revision, id, item), out);
}

proof fn lemma_span_exactly(revision: Seq<char>, id: Seq<char>, item: JsonTree)
    requires
        item.member("span"@) matches Some(JsonTree::Object(_)),
    ensures
        ({
            let subject = iri::item_iri_text(revision, id);
            let place = subject + "/span"@;
            let begin = rustdoc::position(item.member("span"@)->0.member("begin"@));
            let end = rustdoc::position(item.member("span"@)->0.member("end"@));
            let start_line = text::decimal(begin.0 as nat);
            let start_column = text::decimal(begin.1 as nat);
            let end_line = text::decimal(end.0 as nat);
            let end_column = text::decimal(end.1 as nat);
            exactly(
                graph::span_statements(revision, id, item),
                seq![
                    about(place, "a"@, Token::Word("sdoc:SourceSpan"@)),
                    about(place, "a"@, Token::Word("prov:Entity"@)),
                    about(place, "sdoc:sourceFile"@, Token::Literal(blanked_text(graph::span_file(item.member("span"@)->0)))),
                    about(place, "sdoc:startLine"@, Token::Word(start_line)),
                    about(place, "sdoc:startColumn"@, Token::Word(start_column)),
                    about(place, "sdoc:endLine"@, Token::Word(end_line)),
                    about(place, "sdoc:endColumn"@, Token::Word(end_column)),
                    about(place, "sdoc:grantsDoAuthority"@, Token::Word("false"@)),
                    about(subject, "sdoc:definedAt"@, Token::Iri(place)),
                ],
            )
        }),
{
    let subject = iri::item_iri_text(revision, id);
    let place = subject + "/span"@;
    let begin = rustdoc::position(item.member("span"@)->0.member("begin"@));
    let end = rustdoc::position(item.member("span"@)->0.member("end"@));
    let start_line = text::decimal(begin.0 as nat);
    let start_column = text::decimal(begin.1 as nat);
    let end_line = text::decimal(end.0 as nat);
    let end_column = text::decimal(end.1 as nat);
    let tokens = seq![Token::Iri(place), Token::Word("a"@), Token::Word("sdoc:SourceSpan"@), Token::Mark(','), Token::Word("prov:Entity"@), Token::Mark(';'), Token::Word("sdoc:sourceFile"@), Token::Literal(blanked_text(graph::span_file(item.member("span"@)->0))), Token::Mark(';'), Token::Word("sdoc:startLine"@), Token::Word(start_line), Token::Mark(';'), Token::Word("sdoc:startColumn"@), Token::Word(start_column), Token::Mark(';'), Token::Word("sdoc:endLine"@), Token::Word(end_line), Token::Mark(';'), Token::Word("sdoc:endColumn"@), Token::Word(end_column), Token::Mark(';'), Token::Word("sdoc:grantsDoAuthority"@), Token::Word("false"@), Token::Mark('.'), Token::Iri(subject), Token::Word("sdoc:definedAt"@), Token::Iri(place), Token::Mark('.')];
    let out = seq![
        about(place, "a"@, Token::Word("sdoc:SourceSpan"@)),
        about(place, "a"@, Token::Word("prov:Entity"@)),
        about(place, "sdoc:sourceFile"@, Token::Literal(blanked_text(graph::span_file(item.member("span"@)->0)))),
        about(place, "sdoc:startLine"@, Token::Word(start_line)),
        about(place, "sdoc:startColumn"@, Token::Word(start_column)),
        about(place, "sdoc:endLine"@, Token::Word(end_line)),
        about(place, "sdoc:endColumn"@, Token::Word(end_column)),
        about(place, "sdoc:grantsDoAuthority"@, Token::Word("false"@)),
        about(subject, "sdoc:definedAt"@, Token::Iri(place)),
    ];
    lemma_span_read(revision, id, item);
    assert(says(None, None, tokens, 0, out, 0, None)) by {
        reveal_with_fuel(says, 29);
    }
    lemma_says_conveys(None, tokens, out, None);
    lemma_exactly(graph::span_statements(revision, id, item), tokens, out);
}

/// What is read of an item's place in the source, exactly: the file, the line and the column of its
/// beginning, and the line and the column of its end.
pub proof fn law_span_is_told(revision: Seq<char>, id: Seq<char>, item: JsonTree)
    requires
        item.member("span"@) matches Some(JsonTree::Object(_)),
    ensures
        ({
            let subject = iri::item_iri_text(revision, id);
            let place = subject + "/span"@;
            let begin = rustdoc::position(item.member("span"@)->0.member("begin"@));
            let end = rustdoc::position(item.member("span"@)->0.member("end"@));
            let start_line = text::decimal(begin.0 as nat);
            let start_column = text::decimal(begin.1 as nat);
            let end_line = text::decimal(end.0 as nat);
            let end_column = text::decimal(end.1 as nat);
            triples_of(graph::span_statements(revision, id, item)) == seq![
                about(place, "a"@, Token::Word("sdoc:SourceSpan"@)),
                about(place, "a"@, Token::Word("prov:Entity"@)),
                about(place, "sdoc:sourceFile"@, Token::Literal(blanked_text(graph::span_file(item.member("span"@)->0)))),
                about(place, "sdoc:startLine"@, Token::Word(start_line)),
                about(place, "sdoc:startColumn"@, Token::Word(start_column)),
                about(place, "sdoc:endLine"@, Token::Word(end_line)),
                about(place, "sdoc:endColumn"@, Token::Word(end_column)),
                about(place, "sdoc:grantsDoAuthority"@, Token::Word("false"@)),
                about(subject, "sdoc:definedAt"@, Token::Iri(place)),
            ]
        }),
{
    let subject = iri::item_iri_text(revision, id);
    let place = subject + "/span"@;
    let begin = rustdoc::position(item.member("span"@)->0.member("begin"@));
    let end = rustdoc::position(item.member("span"@)->0.member("end"@));
    let start_line = text::decimal(begin.0 as nat);
    let start_column = text::decimal(begin.1 as nat);
    let end_line = text::decimal(end.0 as nat);
    let end_column = text::decimal(end.1 as nat);
    let out = seq![
        about(place, "a"@, Token::Word("sdoc:SourceSpan"@)),
        about(place, "a"@, Token::Word("prov:Entity"@)),
        about(place, "sdoc:sourceFile"@, Token::Literal(blanked_text(graph::span_file(item.member("span"@)->0)))),
        about(place, "sdoc:startLine"@, Token::Word(start_line)),
        about(place, "sdoc:startColumn"@, Token::Word(start_column)),
        about(place, "sdoc:endLine"@, Token::Word(end_line)),
        about(place, "sdoc:endColumn"@, Token::Word(end_column)),
        about(place, "sdoc:grantsDoAuthority"@, Token::Word("false"@)),
        about(subject, "sdoc:definedAt"@, Token::Iri(place)),
    ];
    lemma_span_exactly(revision, id, item);
    lemma_exactly_triples(graph::span_statements(revision, id, item), out);
}

/// The triples of a property of an item, where it has the property.
pub open spec fn property(subject: Seq<char>, predicate: Seq<char>, value: Option<Seq<char>>) -> Seq<Triple> {
    match value {
        Some(value) => seq![about(subject, predicate, Token::Literal(blanked_text(value)))],
        None => seq![],
    }
}

proof fn lemma_options_convey(
    document: JsonTree,
    id: Seq<char>,
    item: JsonTree,
    subject: Seq<char>,
)
    ensures
        conveys(
            Some(Token::Iri(subject)),
            None,
            name_tokens(item),
            property(
                subject,
                "sdoc:name"@,
                match item.member("name"@) {
                    Some(JsonTree::Text(name)) => Some(name),
                    _ => None,
                },
            ),
            Some(Token::Iri(subject)),
            None,
        ),
        conveys(
            Some(Token::Iri(subject)),
            None,
            path_tokens(document, id),
            property(subject, "sdoc:fullyQualifiedPath"@, rustdoc::path_text(document, id)),
            Some(Token::Iri(subject)),
            None,
        ),
{
    let spoken = Some(Token::Iri(subject));
    assert(conveys(spoken, None, seq![], seq![], spoken, None)) by {
        reveal(conveys);
    }
    if let Some(JsonTree::Text(name)) = item.member("name"@) {
        let out = property(subject, "sdoc:name"@, Some(name));
        assert(says(spoken, None, name_tokens(item), 0, out, 0, spoken)) by {
            reveal_with_fuel(says, 4);
        }
        lemma_says_conveys(spoken, name_tokens(item), out, spoken);
    }
    if let Some(path) = rustdoc::path_text(document, id) {
        let out = property(subject, "sdoc:fullyQualifiedPath"@, Some(path));
        assert(says(spoken, None, path_tokens(document, id), 0, out, 0, spoken)) by {
            reveal_with_fuel(says, 4);
        }
        lemma_says_conveys(spoken, path_tokens(document, id), out, spoken);
    }
}

proof fn lemma_item_exactly(document: JsonTree, revision: Seq<char>, id: Seq<char>, item: JsonTree)
    ensures
        ({
            let subject = iri::item_iri_text(revision, id);
            let origin = graph::revision_iri(revision);
            let dataset = graph::dataset_iri(revision);
            exactly(
                graph::item_properties(document, revision, id, item),
                seq![
                    about(subject, "a"@, Token::Word("sdoc:RustItem"@)),
                    about(subject, "a"@, Token::Word("sdoc:SourceEvidence"@)),
                    about(subject, "a"@, Token::Word("prov:Entity"@)),
                    about(subject, "sdoc:localId"@, Token::Literal(blanked_text(id))),
                    about(subject, "sdoc:itemKind"@, Token::Literal(blanked_text(rustdoc::kind_text(item)))),
                    about(subject, "sdoc:visibility"@, Token::Literal(blanked_text(rustdoc::visibility_text(item)))),
                    about(subject, "dct:source"@, Token::Literal(blanked_text("rustdoc-json:item:"@ + id))),
                    about(subject, "prov:wasDerivedFrom"@, Token::Iri(origin)),
                ] + property(
                    subject,
                    "sdoc:name"@,
                    match item.member("name"@) {
                        Some(JsonTree::Text(name)) => Some(name),
                        _ => None,
                    },
                ) + property(
                    subject,
                    "sdoc:fullyQualifiedPath"@,
                    rustdoc::path_text(document, id),
                ) + seq![
                    about(subject, "sdoc:grantsDoAuthority"@, Token::Word("false"@)),
                    about(dataset, "sdoc:hasEvidence"@, Token::Iri(subject)),
                ],
            )
        }),
{
    broadcast use lemma_conveys_join;

    let subject = iri::item_iri_text(revision, id);
    let origin = graph::revision_iri(revision);
    let dataset = graph::dataset_iri(revision);
    let head = seq![Token::Iri(subject), Token::Word("a"@), Token::Word("sdoc:RustItem"@), Token::Mark(','), Token::Word("sdoc:SourceEvidence"@), Token::Mark(','), Token::Word("prov:Entity"@), Token::Mark(';'), Token::Word("sdoc:localId"@), Token::Literal(blanked_text(id)), Token::Mark(';'), Token::Word("sdoc:itemKind"@), Token::Literal(blanked_text(rustdoc::kind_text(item))), Token::Mark(';'), Token::Word("sdoc:visibility"@), Token::Literal(blanked_text(rustdoc::visibility_text(item))), Token::Mark(';'), Token::Word("dct:source"@), Token::Literal(blanked_text("rustdoc-json:item:"@ + id)), Token::Mark(';'), Token::Word("prov:wasDerivedFrom"@), Token::Iri(origin), Token::Mark(';')];
    let said = seq![
        about(subject, "a"@, Token::Word("sdoc:RustItem"@)),
        about(subject, "a"@, Token::Word("sdoc:SourceEvidence"@)),
        about(subject, "a"@, Token::Word("prov:Entity"@)),
        about(subject, "sdoc:localId"@, Token::Literal(blanked_text(id))),
        about(subject, "sdoc:itemKind"@, Token::Literal(blanked_text(rustdoc::kind_text(item)))),
        about(subject, "sdoc:visibility"@, Token::Literal(blanked_text(rustdoc::visibility_text(item)))),
        about(subject, "dct:source"@, Token::Literal(blanked_text("rustdoc-json:item:"@ + id))),
        about(subject, "prov:wasDerivedFrom"@, Token::Iri(origin)),
    ];
    let tail = seq![Token::Word("sdoc:grantsDoAuthority"@), Token::Word("false"@), Token::Mark('.'), Token::Iri(dataset), Token::Word("sdoc:hasEvidence"@), Token::Iri(subject), Token::Mark('.')];
    let last = seq![
        about(subject, "sdoc:grantsDoAuthority"@, Token::Word("false"@)),
        about(dataset, "sdoc:hasEvidence"@, Token::Iri(subject)),
    ];
    let spoken = Some(Token::Iri(subject));
    lemma_properties_read(document, revision, id, item);
    lemma_options_convey(document, id, item, subject);
    assert(says(None, None, head, 0, said, 0, spoken)) by {
        reveal_with_fuel(says, 24);
    }
    lemma_says_conveys(None, head, said, spoken);
    assert(says(spoken, None, tail, 0, last, 0, None)) by {
        reveal_with_fuel(says, 8);
    }
    lemma_says_conveys(spoken, tail, last, None);
    lemma_exactly(
        graph::item_properties(document, revision, id, item),
        head + name_tokens(item) + path_tokens(document, id) + tail,
        said + property(
            subject,
            "sdoc:name"@,
            match item.member("name"@) {
                Some(JsonTree::Text(name)) => Some(name),
                _ => None,
            },
        ) + property(subject, "sdoc:fullyQualifiedPath"@, rustdoc::path_text(document, id)) + last,
    );
}

/// What is read of an item itself, exactly: its id, its kind, its visibility, its name and its
/// qualified path where it has them, the revision that it is derived from, and that the dataset
/// holds it as evidence.
pub proof fn law_item_is_told(document: JsonTree, revision: Seq<char>, id: Seq<char>, item: JsonTree)
    ensures
        ({
            let subject = iri::item_iri_text(revision, id);
            let origin = graph::revision_iri(revision);
            let dataset = graph::dataset_iri(revision);
            triples_of(graph::item_properties(document, revision, id, item)) == seq![
                about(subject, "a"@, Token::Word("sdoc:RustItem"@)),
                about(subject, "a"@, Token::Word("sdoc:SourceEvidence"@)),
                about(subject, "a"@, Token::Word("prov:Entity"@)),
                about(subject, "sdoc:localId"@, Token::Literal(blanked_text(id))),
                about(subject, "sdoc:itemKind"@, Token::Literal(blanked_text(rustdoc::kind_text(item)))),
                about(subject, "sdoc:visibility"@, Token::Literal(blanked_text(rustdoc::visibility_text(item)))),
                about(subject, "dct:source"@, Token::Literal(blanked_text("rustdoc-json:item:"@ + id))),
                about(subject, "prov:wasDerivedFrom"@, Token::Iri(origin)),
            ] + property(
                subject,
                "sdoc:name"@,
                match item.member("name"@) {
                    Some(JsonTree::Text(name)) => Some(name),
                    _ => None,
                },
            ) + property(
                subject,
                "sdoc:fullyQualifiedPath"@,
                rustdoc::path_text(document, id),
            ) + seq![
                about(subject, "sdoc:grantsDoAuthority"@, Token::Word("false"@)),
                about(dataset, "sdoc:hasEvidence"@, Token::Iri(subject)),
            ]
        }),
{
    let subject = iri::item_iri_text(revision, id);
    let origin = graph::revision_iri(revision);
    let dataset = graph::dataset_iri(revision);
    lemma_item_exactly(document, revision, id, item);
    lemma_exactly_triples(
        graph::item_properties(document, revision, id, item),
        seq![
            about(subject, "a"@, Token::Word("sdoc:RustItem"@)),
            about(subject, "a"@, Token::Word("sdoc:SourceEvidence"@)),
            about(subject, "a"@, Token::Word("prov:Entity"@)),
            about(subject, "sdoc:localId"@, Token::Literal(blanked_text(id))),
            about(subject, "sdoc:itemKind"@, Token::Literal(blanked_text(rustdoc::kind_text(item)))),
            about(subject, "sdoc:visibility"@, Token::Literal(blanked_text(rustdoc::visibility_text(item)))),
            about(subject, "dct:source"@, Token::Literal(blanked_text("rustdoc-json:item:"@ + id))),
            about(subject, "prov:wasDerivedFrom"@, Token::Iri(origin)),
        ] + property(
            subject,
            "sdoc:name"@,
            match item.member("name"@) {
                Some(JsonTree::Text(name)) => Some(name),
                _ => None,
            },
        ) + property(subject, "sdoc:fullyQualifiedPath"@, rustdoc::path_text(document, id)) + seq![
            about(subject, "sdoc:grantsDoAuthority"@, Token::Word("false"@)),
            about(dataset, "sdoc:hasEvidence"@, Token::Iri(subject)),
        ],
    );
}

// The whole graph.

/// The text is read to its end, statement by statement.
spec fn whole(text: Seq<char>) -> bool {
    exactly(text, triples_of(text))
}

proof fn lemma_whole_gives(text: Seq<char>)
    requires
        whole(text),
    ensures
        gives(Place::Outside, seq![], text, tokens_of(text), Place::Outside, seq![]),
{
    reveal(exactly);
    reveal(gives);
}

proof fn lemma_whole_join(a: Seq<char>, b: Seq<char>)
    requires
        whole(a),
        whole(b),
    ensures
        whole(a + b),
        triples_of(a + b) == triples_of(a) + triples_of(b),
{
    lemma_exactly_join(a, triples_of(a), b, triples_of(b));
    lemma_exactly_triples(a + b, triples_of(a) + triples_of(b));
}

proof fn lemma_whole_nothing()
    ensures
        whole(seq![]),
        triples_of(seq![]) == Seq::<Triple>::empty(),
{
    lemma_nothing_exactly();
    lemma_exactly_triples(seq![], seq![]);
}

/// Two texts are told where they are told one after the other.
proof fn lemma_told(a: Seq<char>, b: Seq<char>, t: Triple)
    requires
        whole(a),
        whole(b),
    ensures
        whole(a + b),
        triples_of(a + b).contains(t) <==> triples_of(a).contains(t) || triples_of(b).contains(t),
{
    lemma_whole_join(a, b);
    let x = triples_of(a);
    let y = triples_of(b);
    if x.contains(t) {
        assert((x + y)[x.index_of(t)] == t);
    }
    if y.contains(t) {
        assert((x + y)[x.len() + y.index_of(t)] == t);
    }
    if (x + y).contains(t) {
        let i = (x + y).index_of(t);
        if i < x.len() {
            assert(x[i] == t);
        } else {
            assert(y[i - x.len()] == t);
        }
    }
}

proof fn lemma_link_whole(revision: Seq<char>, id: Seq<char>, label: Seq<char>, value: JsonTree)
    ensures
        whole(graph::link_statements(revision, id, label, value)),
{
    lemma_whole_nothing();
    if rustdoc::has_text(value) {
        lemma_link_exactly(revision, id, label, value);
        law_link_is_told(revision, id, label, value);
    }
}

proof fn lemma_span_whole(revision: Seq<char>, id: Seq<char>, item: JsonTree)
    ensures
        whole(graph::span_statements(revision, id, item)),
{
    lemma_whole_nothing();
    if item.member("span"@) matches Some(JsonTree::Object(_)) {
        lemma_span_exactly(revision, id, item);
        law_span_is_told(revision, id, item);
    }
}

proof fn lemma_docs_whole(revision: Seq<char>, id: Seq<char>, item: JsonTree)
    ensures
        whole(graph::docs_statements(revision, id, item)),
{
    lemma_whole_nothing();
    if let Some(JsonTree::Text(docs)) = item.member("docs"@) {
        lemma_docs_exactly(revision, id, item, docs);
        law_documentation_is_told(revision, id, item, docs);
    }
}

proof fn lemma_root_whole(document: JsonTree, revision: Seq<char>)
    ensures
        whole(graph::root_statements(document, revision)),
{
    lemma_whole_nothing();
    if let Some(root) = document.member("root"@) {
        if rustdoc::has_text(root) {
            lemma_root_exactly(document, revision, root);
            law_root_is_told(document, revision, root);
        }
    }
}

proof fn lemma_links_told(
    revision: Seq<char>,
    id: Seq<char>,
    links: Map<Seq<char>, JsonTree>,
    labels: Seq<Seq<char>>,
    t: Triple,
)
    ensures
        whole(graph::links_statements(revision, id, links, labels)),
        triples_of(graph::links_statements(revision, id, links, labels)).contains(t)
            <==> exists|k: int|
            0 <= k < labels.len() && triples_of(
                graph::link_statements(revision, id, #[trigger] labels[k], links[labels[k]]),
            ).contains(t),
    decreases labels.len(),
{
    if labels.len() == 0 {
        lemma_whole_nothing();
    } else {
        let rest = labels.drop_last();
        let last = labels.last();
        lemma_links_told(revision, id, links, rest, t);
        lemma_link_whole(revision, id, last, links[last]);
        lemma_told(
            graph::links_statements(revision, id, links, rest),
            graph::link_statements(revision, id, last, links[last]),
            t,
        );
        if exists|k: int|
            0 <= k < rest.len() && triples_of(
                graph::link_statements(revision, id, #[trigger] rest[k], links[rest[k]]),
            ).contains(t) {
            let k = choose|k: int|
                0 <= k < rest.len() && triples_of(
                    graph::link_statements(revision, id, #[trigger] rest[k], links[rest[k]]),
                ).contains(t);
            assert(labels[k] == rest[k]);
        }
        assert(labels[labels.len() - 1] == last);
        if exists|k: int|
            0 <= k < labels.len() && triples_of(
                graph::link_statements(revision, id, #[trigger] labels[k], links[labels[k]]),
            ).contains(t) {
            let k = choose|k: int|
                0 <= k < labels.len() && triples_of(
                    graph::link_statements(revision, id, #[trigger] labels[k], links[labels[k]]),
                ).contains(t);
            if k < rest.len() {
                assert(rest[k] == labels[k]);
            }
        }
    }
}

/// A reader learns the triple of the item with the given id.
pub open spec fn told_of_item(
    document: JsonTree,
    revision: Seq<char>,
    id: Seq<char>,
    item: JsonTree,
    t: Triple,
) -> bool {
    ||| triples_of(graph::item_properties(document, revision, id, item)).contains(t)
    ||| triples_of(graph::span_statements(revision, id, item)).contains(t)
    ||| item.member("links"@) matches Some(JsonTree::Object(links)) && exists|label: Seq<char>|
        links.contains_key(label) && triples_of(
            #[trigger] graph::link_statements(revision, id, label, links[label]),
        ).contains(t)
}

proof fn lemma_item_told(
    document: JsonTree,
    revision: Seq<char>,
    id: Seq<char>,
    item: Json,
    t: Triple,
)
    ensures
        whole(graph::item_statements(document, revision, id, item@)),
        triples_of(graph::item_statements(document, revision, id, item@)).contains(t)
            <==> told_of_item(document, revision, id, item@, t),
{
    let links = graph::item_links(item@);
    let labels = order::in_order(links.dom());
    let properties = graph::item_properties(document, revision, id, item@);
    let span = graph::span_statements(revision, id, item@);
    lemma_item_exactly(document, revision, id, item@);
    law_item_is_told(document, revision, id, item@);
    lemma_span_whole(revision, id, item@);
    lemma_links_told(revision, id, links, labels, t);
    lemma_told(properties, span, t);
    lemma_told(properties + span, graph::links_statements(revision, id, links, labels), t);
    json::lemma_member_finite(item, "links"@);
    order::lemma_in_order_lists(links.dom());
    assert forall|label: Seq<char>| labels.contains(label) <==> links.contains_key(label) by {
        assert(labels.to_set().contains(label) <==> links.dom().contains(label));
    }
    if exists|k: int|
        0 <= k < labels.len() && triples_of(
            graph::link_statements(revision, id, #[trigger] labels[k], links[labels[k]]),
        ).contains(t) {
        let k = choose|k: int|
            0 <= k < labels.len() && triples_of(
                graph::link_statements(revision, id, #[trigger] labels[k], links[labels[k]]),
            ).contains(t);
        assert(labels.contains(labels[k]));
        assert(triples_of(
            graph::link_statements(revision, id, labels[k], links[labels[k]]),
        ).contains(t));
    }
    if exists|label: Seq<char>|
        links.contains_key(label) && triples_of(
            #[trigger] graph::link_statements(revision, id, label, links[label]),
        ).contains(t) {
        let label = choose|label: Seq<char>|
            links.contains_key(label) && triples_of(
                #[trigger] graph::link_statements(revision, id, label, links[label]),
            ).contains(t);
        assert(labels.contains(label));
        assert(labels[labels.index_of(label)] == label);
    }
}

#[verifier::opaque]
spec fn item_says(
    document: JsonTree,
    revision: Seq<char>,
    index: Map<Seq<char>, JsonTree>,
    id: Seq<char>,
    t: Triple,
) -> bool {
    index[id] is Object && told_of_item(document, revision, id, index[id], t)
}

#[verifier::opaque]
spec fn docs_say(
    revision: Seq<char>,
    index: Map<Seq<char>, JsonTree>,
    id: Seq<char>,
    t: Triple,
) -> bool {
    index[id] is Object && triples_of(
        graph::docs_statements(revision, id, index[id]),
    ).contains(t)
}

proof fn lemma_next_item_told(
    document: Json,
    revision: Seq<char>,
    index: Map<Seq<char>, JsonTree>,
    ids: Seq<Seq<char>>,
    t: Triple,
)
    requires
        graph::index_of(document@) == Some(index),
        ids.len() > 0,
        index.contains_key(ids.last()),
        whole(graph::items_statements(document@, revision, index, ids.drop_last())),
        whole(graph::items_docs(revision, index, ids.drop_last())),
    ensures
        whole(graph::items_statements(document@, revision, index, ids)),
        triples_of(graph::items_statements(document@, revision, index, ids)).contains(t) <==> (
        triples_of(
            graph::items_statements(document@, revision, index, ids.drop_last()),
        ).contains(t) || item_says(document@, revision, index, ids.last(), t)),
        whole(graph::items_docs(revision, index, ids)),
        triples_of(graph::items_docs(revision, index, ids)).contains(t) <==> (triples_of(
            graph::items_docs(revision, index, ids.drop_last()),
        ).contains(t) || docs_say(revision, index, ids.last(), t)),
{
    reveal(item_says);
    reveal(docs_say);
    let rest = ids.drop_last();
    let last = ids.last();
    let list = json::lemma_member_value(document, "index"@);
    let item = json::lemma_member_value(list, last);
    if index[last] is Object {
        lemma_item_told(document@, revision, last, item, t);
        lemma_docs_whole(revision, last, index[last]);
        lemma_told(
            graph::items_statements(document@, revision, index, rest),
            graph::item_statements(document@, revision, last, index[last]),
            t,
        );
        lemma_told(
            graph::items_docs(revision, index, rest),
            graph::docs_statements(revision, last, index[last]),
            t,
        );
    }
}

proof fn lemma_items_told(
    document: Json,
    revision: Seq<char>,
    index: Map<Seq<char>, JsonTree>,
    ids: Seq<Seq<char>>,
    t: Triple,
)
    requires
        graph::index_of(document@) == Some(index),
        forall|k: int| 0 <= k < ids.len() ==> index.contains_key(#[trigger] ids[k]),
    ensures
        whole(graph::items_statements(document@, revision, index, ids)),
        triples_of(graph::items_statements(document@, revision, index, ids)).contains(t)
            <==> exists|k: int|
            0 <= k < ids.len() && item_says(document@, revision, index, #[trigger] ids[k], t),
        whole(graph::items_docs(revision, index, ids)),
        triples_of(graph::items_docs(revision, index, ids)).contains(t) <==> exists|k: int|
            0 <= k < ids.len() && docs_say(revision, index, #[trigger] ids[k], t),
    decreases ids.len(),
{
    if ids.len() == 0 {
        lemma_whole_nothing();
    } else {
        let rest = ids.drop_last();
        assert forall|k: int| 0 <= k < rest.len() implies index.contains_key(#[trigger] rest[k]) by {
            assert(rest[k] == ids[k]);
        }
        assert(index.contains_key(ids[ids.len() - 1]));
        lemma_items_told(document, revision, index, rest, t);
        lemma_next_item_told(document, revision, index, ids, t);
        assert forall|k: int| 0 <= k < rest.len() implies #[trigger] rest[k] == ids[k] by {}
        assert forall|k: int| 0 <= k < ids.len() - 1 implies #[trigger] ids[k] == rest[k] by {}
        assert(ids[ids.len() - 1] == ids.last());
    }
}

proof fn lemma_revision_whole(repository: Seq<char>, revision: Seq<char>)
    ensures
        whole(graph::revision_statements(repository, revision)),
{
    lemma_revision_exactly(repository, revision);
    law_revision_is_told(repository, revision);
}

proof fn lemma_dataset_whole(repository: Seq<char>, revision: Seq<char>, version: u64)
    ensures
        whole(graph::dataset_statements(repository, revision, version)),
{
    lemma_dataset_exactly(repository, revision, version);
    law_dataset_is_told(repository, revision, version);
}

/// What a reader learns from the source graph, exactly: what is told of the revision, the dataset,
/// the root item, and of every item of the index that is an object; nothing else.
pub proof fn law_source_graph_says_exactly(
    document: Json,
    repository: Seq<char>,
    revision: Seq<char>,
    version: u64,
    index: Map<Seq<char>, JsonTree>,
    t: Triple,
)
    requires
        document@.member("format_version"@) == Some(JsonTree::Int(version as int)),
        document@.member("index"@) == Some(JsonTree::Object(index)),
    ensures
        triples_of(graph::source_statements(document@, repository, revision)).contains(t) <==> {
            ||| triples_of(graph::revision_statements(repository, revision)).contains(t)
            ||| triples_of(graph::dataset_statements(repository, revision, version)).contains(t)
            ||| triples_of(graph::root_statements(document@, revision)).contains(t)
            ||| exists|id: Seq<char>| #[trigger]
                index.contains_key(id) && index[id] is Object && told_of_item(
                    document@,
                    revision,
                    id,
                    index[id],
                    t,
                )
        },
{
    let ids = order::in_order(index.dom());
    let a = graph::revision_statements(repository, revision);
    let b = graph::dataset_statements(repository, revision, version);
    let c = graph::root_statements(document@, revision);
    json::lemma_member_finite(document, "index"@);
    order::lemma_in_order_lists(index.dom());
    lemma_ids(index, ids);
    lemma_revision_whole(repository, revision);
    lemma_dataset_whole(repository, revision, version);
    lemma_root_whole(document@, revision);
    lemma_items_told(document, revision, index, ids, t);
    lemma_told(a, b, t);
    lemma_told(a + b, c, t);
    lemma_told(a + b + c, graph::items_statements(document@, revision, index, ids), t);
    reveal(item_says);
    if exists|id: Seq<char>| #[trigger]
        index.contains_key(id) && index[id] is Object && told_of_item(
            document@,
            revision,
            id,
            index[id],
            t,
        ) {
        let id = choose|id: Seq<char>| #[trigger]
            index.contains_key(id) && index[id] is Object && told_of_item(
                document@,
                revision,
                id,
                index[id],
                t,
            );
        assert(ids[ids.index_of(id)] == id);
    }
}

proof fn lemma_ids(index: Map<Seq<char>, JsonTree>, ids: Seq<Seq<char>>)
    requires
        ids.to_set() == index.dom(),
    ensures
        forall|k: int| 0 <= k < ids.len() ==> index.contains_key(#[trigger] ids[k]),
        forall|id: Seq<char>| #[trigger] index.contains_key(id) ==> ids.contains(id),
{
    assert forall|k: int| 0 <= k < ids.len() implies index.contains_key(#[trigger] ids[k]) by {
        assert(ids.to_set().contains(ids[k]));
    }
    assert forall|id: Seq<char>| #[trigger] index.contains_key(id) implies ids.contains(id) by {
        assert(ids.to_set().contains(id));
    }
}

/// What a reader learns from the documentation graph, exactly: the kind of the documentation, and
/// what is told of the documentation of every item of the index that is an object; nothing else.
pub proof fn law_documentation_graph_says_exactly(
    document: Json,
    revision: Seq<char>,
    index: Map<Seq<char>, JsonTree>,
    t: Triple,
)
    requires
        document@.member("index"@) == Some(JsonTree::Object(index)),
    ensures
        triples_of(graph::documentation_statements(document@, revision)).contains(t) <==> {
            ||| t == (Triple {
                subject: Token::Word("sdoc:RustdocMarkdown"@),
                predicate: Token::Word("a"@),
                object: Token::Word("sdoc:DocumentationKind"@),
            })
            ||| t == (Triple {
                subject: Token::Word("sdoc:RustdocMarkdown"@),
                predicate: Token::Word("sdoc:grantsDoAuthority"@),
                object: Token::Word("false"@),
            })
            ||| exists|id: Seq<char>| #[trigger]
                index.contains_key(id) && index[id] is Object && triples_of(
                    graph::docs_statements(revision, id, index[id]),
                ).contains(t)
        },
{
    let ids = order::in_order(index.dom());
    json::lemma_member_finite(document, "index"@);
    order::lemma_in_order_lists(index.dom());
    lemma_ids(index, ids);
    lemma_kind_told(t);
    lemma_items_told(document, revision, index, ids, t);
    lemma_told(
        "  sdoc:RustdocMarkdown a sdoc:DocumentationKind ; sdoc:grantsDoAuthority false .\n"@,
        graph::items_docs(revision, index, ids),
        t,
    );
    reveal(docs_say);
    if exists|id: Seq<char>| #[trigger]
        index.contains_key(id) && index[id] is Object && triples_of(
            graph::docs_statements(revision, id, index[id]),
        ).contains(t) {
        let id = choose|id: Seq<char>| #[trigger]
            index.contains_key(id) && index[id] is Object && triples_of(
                graph::docs_statements(revision, id, index[id]),
            ).contains(t);
        assert(ids[ids.index_of(id)] == id);
    }
}

proof fn lemma_kind_words()
    ensures
        gives(Place::Outside, seq![], "  sdoc:RustdocMarkdown a sdoc:DocumentationKind ; sdoc:grantsDoAuthority false .\n"@, seq![Token::Word("sdoc:RustdocMarkdown"@), Token::Word("a"@), Token::Word("sdoc:DocumentationKind"@), Token::Mark(';'), Token::Word("sdoc:grantsDoAuthority"@), Token::Word("false"@), Token::Mark('.')], Place::Outside, seq![]),
{
    assert(gives(Place::Outside, seq![], "  sdoc:RustdocMarkdown a sdoc:DocumentationKind ; sdoc:grantsDoAuthority false .\n"@, seq![Token::Word("sdoc:RustdocMarkdown"@), Token::Word("a"@), Token::Word("sdoc:DocumentationKind"@), Token::Mark(';'), Token::Word("sdoc:grantsDoAuthority"@), Token::Word("false"@), Token::Mark('.')], Place::Outside, seq![])) by {
        let words = "  sdoc:RustdocMarkdown a sdoc:DocumentationKind ; sdoc:grantsDoAuthority false .\n"@;
        let out = seq![Token::Word("sdoc:RustdocMarkdown"@), Token::Word("a"@), Token::Word("sdoc:DocumentationKind"@), Token::Mark(';'), Token::Word("sdoc:grantsDoAuthority"@), Token::Word("false"@), Token::Mark('.')];
        reveal_strlit("  sdoc:RustdocMarkdown a sdoc:DocumentationKind ; sdoc:grantsDoAuthority false .\n");
        reveal_strlit("sdoc:RustdocMarkdown");
        reveal_strlit("a");
        reveal_strlit("sdoc:DocumentationKind");
        reveal_strlit("sdoc:grantsDoAuthority");
        reveal_strlit("false");
        reveal_with_fuel(yields, 13);
        assert(yields(Place::Outside, 19, words, 69, out, 4, Place::Outside));
        assert(yields(Place::Outside, 7, words, 57, out, 4, Place::Outside));
        assert(yields(Place::Outside, 20, words, 45, out, 2, Place::Outside));
        assert(yields(Place::Outside, 8, words, 33, out, 2, Place::Outside));
        assert(yields(Place::Outside, 19, words, 21, out, 0, Place::Outside));
        assert(yields(Place::Outside, 7, words, 9, out, 0, Place::Outside));
        lemma_yields_gives(Place::Outside, words, out, Place::Outside);
    }
}

proof fn lemma_kind_told(t: Triple)
    ensures
        whole("  sdoc:RustdocMarkdown a sdoc:DocumentationKind ; sdoc:grantsDoAuthority false .\n"@),
        triples_of("  sdoc:RustdocMarkdown a sdoc:DocumentationKind ; sdoc:grantsDoAuthority false .\n"@).contains(t) <==> t == (Triple { subject: Token::Word("sdoc:RustdocMarkdown"@), predicate: Token::Word("a"@), object: Token::Word("sdoc:DocumentationKind"@) }) || t == (Triple { subject: Token::Word("sdoc:RustdocMarkdown"@), predicate: Token::Word("sdoc:grantsDoAuthority"@), object: Token::Word("false"@) }),
{
    let tokens = seq![Token::Word("sdoc:RustdocMarkdown"@), Token::Word("a"@), Token::Word("sdoc:DocumentationKind"@), Token::Mark(';'), Token::Word("sdoc:grantsDoAuthority"@), Token::Word("false"@), Token::Mark('.')];
    let out = seq![
        Triple { subject: Token::Word("sdoc:RustdocMarkdown"@), predicate: Token::Word("a"@), object: Token::Word("sdoc:DocumentationKind"@) },
        Triple { subject: Token::Word("sdoc:RustdocMarkdown"@), predicate: Token::Word("sdoc:grantsDoAuthority"@), object: Token::Word("false"@) },
    ];
    lemma_kind_words();
    assert(says(None, None, tokens, 0, out, 0, None)) by {
        reveal_with_fuel(says, 8);
    }
    lemma_says_conveys(None, tokens, out, None);
    lemma_exactly("  sdoc:RustdocMarkdown a sdoc:DocumentationKind ; sdoc:grantsDoAuthority false .\n"@, tokens, out);
    lemma_exactly_triples("  sdoc:RustdocMarkdown a sdoc:DocumentationKind ; sdoc:grantsDoAuthority false .\n"@, out);
    assert(out[0] == (Triple { subject: Token::Word("sdoc:RustdocMarkdown"@), predicate: Token::Word("a"@), object: Token::Word("sdoc:DocumentationKind"@) }));
    assert(out[1] == (Triple { subject: Token::Word("sdoc:RustdocMarkdown"@), predicate: Token::Word("sdoc:grantsDoAuthority"@), object: Token::Word("false"@) }));
}

proof fn lemma_graph_words(vocabulary: Seq<char>)
    ensures
        gives(Place::Outside, seq![], "@prefix sdoc: <"@, seq![Token::Word("@prefix"@), Token::Word("sdoc:"@)], Place::Iri, seq![]),
        gives(Place::Iri, vocabulary, "> .\n@prefix prov: <http://www.w3.org/ns/prov#> .\n@prefix dct: <http://purl.org/dc/terms/> .\n@prefix rdf: <http://www.w3.org/1999/02/22-rdf-syntax-ns#> .\n@prefix xsd: <http://www.w3.org/2001/XMLSchema#> .\n\n<"@, seq![Token::Iri(vocabulary), Token::Mark('.'), Token::Word("@prefix"@), Token::Word("prov:"@), Token::Iri("http://www.w3.org/ns/prov#"@), Token::Mark('.'), Token::Word("@prefix"@), Token::Word("dct:"@), Token::Iri("http://purl.org/dc/terms/"@), Token::Mark('.'), Token::Word("@prefix"@), Token::Word("rdf:"@), Token::Iri("http://www.w3.org/1999/02/22-rdf-syntax-ns#"@), Token::Mark('.'), Token::Word("@prefix"@), Token::Word("xsd:"@), Token::Iri("http://www.w3.org/2001/XMLSchema#"@), Token::Mark('.')], Place::Iri, seq![]),
        gives(Place::Outside, seq![], "}\n\n<"@, seq![Token::Mark('}')], Place::Iri, seq![]),
        gives(Place::Outside, seq![], "}\n"@, seq![Token::Mark('}')], Place::Outside, seq![]),
{
    assert(gives(Place::Outside, seq![], "@prefix sdoc: <"@, seq![Token::Word("@prefix"@), Token::Word("sdoc:"@)], Place::Iri, seq![])) by {
        let words = "@prefix sdoc: <"@;
        let out = seq![Token::Word("@prefix"@), Token::Word("sdoc:"@)];
        reveal_strlit("@prefix sdoc: <");
        reveal_strlit("@prefix");
        reveal_strlit("sdoc:");
        reveal_with_fuel(yields, 16);
        lemma_yields_gives(Place::Outside, words, out, Place::Iri);
    }
    assert(gives(Place::Iri, vocabulary, "> .\n@prefix prov: <http://www.w3.org/ns/prov#> .\n@prefix dct: <http://purl.org/dc/terms/> .\n@prefix rdf: <http://www.w3.org/1999/02/22-rdf-syntax-ns#> .\n@prefix xsd: <http://www.w3.org/2001/XMLSchema#> .\n\n<"@, seq![Token::Iri(vocabulary), Token::Mark('.'), Token::Word("@prefix"@), Token::Word("prov:"@), Token::Iri("http://www.w3.org/ns/prov#"@), Token::Mark('.'), Token::Word("@prefix"@), Token::Word("dct:"@), Token::Iri("http://purl.org/dc/terms/"@), Token::Mark('.'), Token::Word("@prefix"@), Token::Word("rdf:"@), Token::Iri("http://www.w3.org/1999/02/22-rdf-syntax-ns#"@), Token::Mark('.'), Token::Word("@prefix"@), Token::Word("xsd:"@), Token::Iri("http://www.w3.org/2001/XMLSchema#"@), Token::Mark('.')], Place::Iri, seq![])) by {
        let words = "> .\n@prefix prov: <http://www.w3.org/ns/prov#> .\n@prefix dct: <http://purl.org/dc/terms/> .\n@prefix rdf: <http://www.w3.org/1999/02/22-rdf-syntax-ns#> .\n@prefix xsd: <http://www.w3.org/2001/XMLSchema#> .\n\n<"@;
        let out = seq![Token::Iri(vocabulary), Token::Mark('.'), Token::Word("@prefix"@), Token::Word("prov:"@), Token::Iri("http://www.w3.org/ns/prov#"@), Token::Mark('.'), Token::Word("@prefix"@), Token::Word("dct:"@), Token::Iri("http://purl.org/dc/terms/"@), Token::Mark('.'), Token::Word("@prefix"@), Token::Word("rdf:"@), Token::Iri("http://www.w3.org/1999/02/22-rdf-syntax-ns#"@), Token::Mark('.'), Token::Word("@prefix"@), Token::Word("xsd:"@), Token::Iri("http://www.w3.org/2001/XMLSchema#"@), Token::Mark('.')];
        reveal_strlit("> .\n@prefix prov: <http://www.w3.org/ns/prov#> .\n@prefix dct: <http://purl.org/dc/terms/> .\n@prefix rdf: <http://www.w3.org/1999/02/22-rdf-syntax-ns#> .\n@prefix xsd: <http://www.w3.org/2001/XMLSchema#> .\n\n<");
        reveal_strlit("@prefix");
        reveal_strlit("prov:");
        reveal_strlit("http://www.w3.org/ns/prov#");
        reveal_strlit("dct:");
        reveal_strlit("http://purl.org/dc/terms/");
        reveal_strlit("rdf:");
        reveal_strlit("http://www.w3.org/1999/02/22-rdf-syntax-ns#");
        reveal_strlit("xsd:");
        reveal_strlit("http://www.w3.org/2001/XMLSchema#");
        reveal_with_fuel(yields, 15);
        assert(yields(Place::Iri, 27, words, 194, out, 16, Place::Iri));
        assert(yields(Place::Iri, 15, words, 182, out, 16, Place::Iri));
        assert(yields(Place::Iri, 3, words, 170, out, 16, Place::Iri));
        assert(yields(Place::Outside, 5, words, 158, out, 14, Place::Iri));
        assert(yields(Place::Iri, 40, words, 146, out, 12, Place::Iri));
        assert(yields(Place::Iri, 28, words, 134, out, 12, Place::Iri));
        assert(yields(Place::Iri, 16, words, 122, out, 12, Place::Iri));
        assert(yields(Place::Iri, 4, words, 110, out, 12, Place::Iri));
        assert(yields(Place::Outside, 6, words, 98, out, 10, Place::Iri));
        assert(yields(Place::Iri, 23, words, 86, out, 8, Place::Iri));
        assert(yields(Place::Iri, 11, words, 74, out, 8, Place::Iri));
        assert(yields(Place::Outside, 0, words, 62, out, 8, Place::Iri));
        assert(yields(Place::Outside, 1, words, 50, out, 6, Place::Iri));
        assert(yields(Place::Iri, 19, words, 38, out, 4, Place::Iri));
        assert(yields(Place::Iri, 7, words, 26, out, 4, Place::Iri));
        assert(yields(Place::Outside, 2, words, 14, out, 3, Place::Iri));
        lemma_yields_ending(Place::Iri, vocabulary, words, out, Place::Iri);
    }
    assert(gives(Place::Outside, seq![], "}\n\n<"@, seq![Token::Mark('}')], Place::Iri, seq![])) by {
        let words = "}\n\n<"@;
        let out = seq![Token::Mark('}')];
        reveal_strlit("}\n\n<");
        reveal_with_fuel(yields, 5);
        lemma_yields_gives(Place::Outside, words, out, Place::Iri);
    }
    assert(gives(Place::Outside, seq![], "}\n"@, seq![Token::Mark('}')], Place::Outside, seq![])) by {
        let words = "}\n"@;
        let out = seq![Token::Mark('}')];
        reveal_strlit("}\n");
        reveal_with_fuel(yields, 3);
        lemma_yields_gives(Place::Outside, words, out, Place::Outside);
    }
}

proof fn lemma_vocabulary_within()
    ensures
        within_iri("https://ggen.dev/ontology/semantic-documentation#"@),
{
    reveal_strlit("https://ggen.dev/ontology/semantic-documentation#");
    reveal_with_fuel(no_end, 50);
    lemma_no_end("https://ggen.dev/ontology/semantic-documentation#"@, 0);
}

/// How a graph is framed: the prefixes, then the source graph under its name, then the
/// documentation graph under its own, each with its statements and no others.
pub proof fn law_graph_is_framed(
    document: Json,
    repository: Seq<char>,
    revision: Seq<char>,
    version: u64,
    index: Map<Seq<char>, JsonTree>,
)
    requires
        document@.member("format_version"@) == Some(JsonTree::Int(version as int)),
        document@.member("index"@) == Some(JsonTree::Object(index)),
    ensures
        tokens_of(graph::graph_text(document@, repository, revision)) == seq![
            Token::Word("@prefix"@),
            Token::Word("sdoc:"@),
            Token::Iri("https://ggen.dev/ontology/semantic-documentation#"@),
            Token::Mark('.'),
            Token::Word("@prefix"@),
            Token::Word("prov:"@),
            Token::Iri("http://www.w3.org/ns/prov#"@),
            Token::Mark('.'),
            Token::Word("@prefix"@),
            Token::Word("dct:"@),
            Token::Iri("http://purl.org/dc/terms/"@),
            Token::Mark('.'),
            Token::Word("@prefix"@),
            Token::Word("rdf:"@),
            Token::Iri("http://www.w3.org/1999/02/22-rdf-syntax-ns#"@),
            Token::Mark('.'),
            Token::Word("@prefix"@),
            Token::Word("xsd:"@),
            Token::Iri("http://www.w3.org/2001/XMLSchema#"@),
            Token::Mark('.'),
        ] + seq![Token::Iri(graph::source_graph_iri(revision)), Token::Mark('{')] + tokens_of(
            graph::source_statements(document@, repository, revision),
        ) + seq![
            Token::Mark('}'),
            Token::Iri(graph::docs_graph_iri(revision)),
            Token::Mark('{'),
        ] + tokens_of(graph::documentation_statements(document@, revision)) + seq![
            Token::Mark('}'),
        ],
{
    broadcast use lemma_gives_join;

    let trig = graph::graph_text(document@, repository, revision);
    let source = graph::source_statements(document@, repository, revision);
    let docs = graph::documentation_statements(document@, revision);
    lemma_graphs_whole(document, repository, revision, version, index);
    lemma_whole_gives(source);
    lemma_whole_gives(docs);
    lemma_resources_within(revision);
    lemma_vocabulary_within();
    lemma_iri_gives(graph::SDOC@);
    lemma_iri_gives(graph::source_graph_iri(revision));
    lemma_iri_gives(graph::docs_graph_iri(revision));
    lemma_graph_words(graph::SDOC@);
    lemma_shared_words(graph::source_graph_iri(revision));
    lemma_shared_words(graph::docs_graph_iri(revision));
    let nothing = Seq::<Token>::empty();
    let chunks = seq![Token::Word("@prefix"@), Token::Word("sdoc:"@)] + nothing + seq![Token::Iri("https://ggen.dev/ontology/semantic-documentation#"@), Token::Mark('.'), Token::Word("@prefix"@), Token::Word("prov:"@), Token::Iri("http://www.w3.org/ns/prov#"@), Token::Mark('.'), Token::Word("@prefix"@), Token::Word("dct:"@), Token::Iri("http://purl.org/dc/terms/"@), Token::Mark('.'), Token::Word("@prefix"@), Token::Word("rdf:"@), Token::Iri("http://www.w3.org/1999/02/22-rdf-syntax-ns#"@), Token::Mark('.'), Token::Word("@prefix"@), Token::Word("xsd:"@), Token::Iri("http://www.w3.org/2001/XMLSchema#"@), Token::Mark('.')] + nothing + seq![Token::Iri(graph::source_graph_iri(revision)), Token::Mark('{')] + tokens_of(source) + seq![Token::Mark('}')] + nothing + seq![Token::Iri(graph::docs_graph_iri(revision)), Token::Mark('{')] + tokens_of(docs) + seq![Token::Mark('}')];
    assert(gives(Place::Outside, seq![], trig, chunks, Place::Outside, seq![]));
    assert(tokens_of(trig) == chunks) by {
        reveal(gives);
    }
    assert(chunks =~= seq![Token::Word("@prefix"@), Token::Word("sdoc:"@), Token::Iri("https://ggen.dev/ontology/semantic-documentation#"@), Token::Mark('.'), Token::Word("@prefix"@), Token::Word("prov:"@), Token::Iri("http://www.w3.org/ns/prov#"@), Token::Mark('.'), Token::Word("@prefix"@), Token::Word("dct:"@), Token::Iri("http://purl.org/dc/terms/"@), Token::Mark('.'), Token::Word("@prefix"@), Token::Word("rdf:"@), Token::Iri("http://www.w3.org/1999/02/22-rdf-syntax-ns#"@), Token::Mark('.'), Token::Word("@prefix"@), Token::Word("xsd:"@), Token::Iri("http://www.w3.org/2001/XMLSchema#"@), Token::Mark('.')] + seq![Token::Iri(graph::source_graph_iri(revision)), Token::Mark('{')] + tokens_of(source) + seq![Token::Mark('}'), Token::Iri(graph::docs_graph_iri(revision)), Token::Mark('{')] + tokens_of(docs) + seq![Token::Mark('}')]);
}

proof fn lemma_graphs_whole(
    document: Json,
    repository: Seq<char>,
    revision: Seq<char>,
    version: u64,
    index: Map<Seq<char>, JsonTree>,
)
    requires
        document@.member("format_version"@) == Some(JsonTree::Int(version as int)),
        document@.member("index"@) == Some(JsonTree::Object(index)),
    ensures
        whole(graph::source_statements(document@, repository, revision)),
        whole(graph::documentation_statements(document@, revision)),
{
    let ids = order::in_order(index.dom());
    let a = graph::revision_statements(repository, revision);
    let b = graph::dataset_statements(repository, revision, version);
    let c = graph::root_statements(document@, revision);
    let t = arbitrary::<Triple>();
    json::lemma_member_finite(document, "index"@);
    order::lemma_in_order_lists(index.dom());
    lemma_ids(index, ids);
    lemma_kind_told(t);
    lemma_revision_whole(repository, revision);
    lemma_dataset_whole(repository, revision, version);
    lemma_root_whole(document@, revision);
    lemma_items_told(document, revision, index, ids, t);
    lemma_whole_join(a, b);
    lemma_whole_join(a + b, c);
    lemma_whole_join(a + b + c, graph::items_statements(document@, revision, index, ids));
    lemma_whole_join(
        "  sdoc:RustdocMarkdown a sdoc:DocumentationKind ; sdoc:grantsDoAuthority false .\n"@,
        graph::items_docs(revision, index, ids),
    );
}

// What is told, in terms of the document.

/// The place of an item reads back from the graph: behind `sdoc:startLine` and `sdoc:startColumn`
/// stand the first and the second number of where its span begins, behind `sdoc:endLine` and
/// `sdoc:endColumn` those of where it ends, and behind `sdoc:sourceFile` its file.
pub proof fn law_span_reads_back(
    revision: Seq<char>,
    id: Seq<char>,
    item: JsonTree,
    span: JsonTree,
    begin: Seq<JsonTree>,
    end: Seq<JsonTree>,
    start_line: u64,
    start_column: u64,
    end_line: u64,
    end_column: u64,
    t: Triple,
)
    requires
        item.member("span"@) == Some(span),
        span is Object,
        span.member("begin"@) == Some(JsonTree::Array(begin)),
        span.member("end"@) == Some(JsonTree::Array(end)),
        begin.len() >= 2,
        begin[0] == JsonTree::Int(start_line as int),
        begin[1] == JsonTree::Int(start_column as int),
        end.len() >= 2,
        end[0] == JsonTree::Int(end_line as int),
        end[1] == JsonTree::Int(end_column as int),
        triples_of(graph::span_statements(revision, id, item)).contains(t),
    ensures
        t.predicate == Token::Word("sdoc:startLine"@) ==> t.object is Word && text::digits_value(
            t.object->Word_0,
        ) == start_line,
        t.predicate == Token::Word("sdoc:startColumn"@) ==> t.object is Word
            && text::digits_value(t.object->Word_0) == start_column,
        t.predicate == Token::Word("sdoc:endLine"@) ==> t.object is Word && text::digits_value(
            t.object->Word_0,
        ) == end_line,
        t.predicate == Token::Word("sdoc:endColumn"@) ==> t.object is Word && text::digits_value(
            t.object->Word_0,
        ) == end_column,
        t.predicate == Token::Word("sdoc:sourceFile"@) ==> t.object == Token::Literal(
            blanked_text(
                match span.member("filename"@) {
                    Some(JsonTree::Text(file)) => file,
                    _ => seq![],
                },
            ),
        ),
{
    law_span_is_told(revision, id, item);
    text::law_decimal_reads_back(start_line as nat);
    text::law_decimal_reads_back(start_column as nat);
    text::law_decimal_reads_back(end_line as nat);
    text::law_decimal_reads_back(end_column as nat);
    lemma_span_words_differ();
    assert(rustdoc::position(span.member("begin"@)) == (start_line, start_column));
    assert(rustdoc::position(span.member("end"@)) == (end_line, end_column));
    reveal_strlit("");
    assert(""@ =~= seq![]);
}

/// Every item with a span has each of the five told of its place.
pub proof fn law_span_is_complete(
    revision: Seq<char>,
    id: Seq<char>,
    item: JsonTree,
    k: int,
)
    requires
        item.member("span"@) matches Some(JsonTree::Object(_)),
        0 <= k < 5,
    ensures
        exists|t: Triple| #[trigger]
            triples_of(graph::span_statements(revision, id, item)).contains(t) && t.subject
                == Token::Iri(iri::item_iri_text(revision, id) + "/span"@) && t.predicate
                == Token::Word(
                seq![
                    "sdoc:sourceFile"@,
                    "sdoc:startLine"@,
                    "sdoc:startColumn"@,
                    "sdoc:endLine"@,
                    "sdoc:endColumn"@,
                ][k],
            ),
        exists|t: Triple| #[trigger]
            triples_of(graph::span_statements(revision, id, item)).contains(t) && t.predicate
                == Token::Word("sdoc:definedAt"@) && t.subject == Token::Iri(
                iri::item_iri_text(revision, id),
            ) && t.object == Token::Iri(iri::item_iri_text(revision, id) + "/span"@),
{
    law_span_is_told(revision, id, item);
    let told = triples_of(graph::span_statements(revision, id, item));
    assert(told.contains(told[2]) && told.contains(told[3]) && told.contains(told[4])
        && told.contains(told[5]) && told.contains(told[6]) && told.contains(told[8]));
}

proof fn lemma_span_words_differ()
    ensures
        "a"@.len() == 1,
        "sdoc:sourceFile"@.len() == 15,
        "sdoc:startLine"@.len() == 14,
        "sdoc:startColumn"@.len() == 16,
        "sdoc:endLine"@.len() == 12,
        "sdoc:endColumn"@.len() == 14,
        "sdoc:grantsDoAuthority"@.len() == 22,
        "sdoc:definedAt"@.len() == 14,
        "sdoc:startLine"@[5] == 's',
        "sdoc:endColumn"@[5] == 'e',
        "sdoc:definedAt"@[5] == 'd',
{
    reveal_strlit("a");
    reveal_strlit("sdoc:sourceFile");
    reveal_strlit("sdoc:startLine");
    reveal_strlit("sdoc:startColumn");
    reveal_strlit("sdoc:endLine");
    reveal_strlit("sdoc:endColumn");
    reveal_strlit("sdoc:grantsDoAuthority");
    reveal_strlit("sdoc:definedAt");
}

/// The documentation of an item reads back from the graph as the whole of it: whatever stands
/// behind `rdf:value` in its fragment says it, and something does.
pub proof fn law_documentation_reads_back(
    revision: Seq<char>,
    id: Seq<char>,
    item: JsonTree,
    docs: Seq<char>,
    t: Triple,
)
    requires
        item.member("docs"@) == Some(JsonTree::Text(docs)),
    ensures
        triples_of(graph::docs_statements(revision, id, item)).contains(t) && t.predicate
            == Token::Word("rdf:value"@) ==> t.object == Token::Literal(blanked_text(docs)),
        triples_of(graph::docs_statements(revision, id, item)).contains(
            about(
                iri::item_iri_text(revision, id) + "/doc"@,
                "rdf:value"@,
                Token::Literal(blanked_text(docs)),
            ),
        ),
        triples_of(graph::docs_statements(revision, id, item)).contains(
            about(
                iri::item_iri_text(revision, id) + "/doc"@,
                "sdoc:documents"@,
                Token::Iri(iri::item_iri_text(revision, id)),
            ),
        ),
{
    law_documentation_is_told(revision, id, item, docs);
    reveal_strlit("a");
    reveal_strlit("rdf:value");
    reveal_strlit("sdoc:documents");
    reveal_strlit("sdoc:documentationKind");
    reveal_strlit("prov:wasDerivedFrom");
    reveal_strlit("sdoc:grantsDoAuthority");
    reveal_strlit("sdoc:hasEvidence");
    assert("a"@.len() == 1 && "rdf:value"@.len() == 9 && "sdoc:documents"@.len() == 14
        && "sdoc:documentationKind"@.len() == 22 && "prov:wasDerivedFrom"@.len() == 19
        && "sdoc:grantsDoAuthority"@.len() == 22 && "sdoc:hasEvidence"@.len() == 16);
    let told = triples_of(graph::docs_statements(revision, id, item));
    let k = lemma_value_told(revision, id, item, docs);
    assert(told.contains(told[k]));
    let d = lemma_documents_told(revision, id, item, docs);
    assert(told.contains(told[d]));
}

proof fn lemma_value_told(
    revision: Seq<char>,
    id: Seq<char>,
    item: JsonTree,
    docs: Seq<char>,
) -> (k: int)
    requires
        item.member("docs"@) == Some(JsonTree::Text(docs)),
    ensures
        0 <= k < triples_of(graph::docs_statements(revision, id, item)).len(),
        triples_of(graph::docs_statements(revision, id, item))[k] == about(
            iri::item_iri_text(revision, id) + "/doc"@,
            "rdf:value"@,
            Token::Literal(blanked_text(docs)),
        ),
{
    law_documentation_is_told(revision, id, item, docs);
    5
}

proof fn lemma_documents_told(
    revision: Seq<char>,
    id: Seq<char>,
    item: JsonTree,
    docs: Seq<char>,
) -> (k: int)
    requires
        item.member("docs"@) == Some(JsonTree::Text(docs)),
    ensures
        0 <= k < triples_of(graph::docs_statements(revision, id, item)).len(),
        triples_of(graph::docs_statements(revision, id, item))[k] == about(
            iri::item_iri_text(revision, id) + "/doc"@,
            "sdoc:documents"@,
            Token::Iri(iri::item_iri_text(revision, id)),
        ),
{
    law_documentation_is_told(revision, id, item, docs);
    3
}

/// Items with different documentation, blanking aside, have different fragments.
pub proof fn law_documentation_differs(
    revision: Seq<char>,
    id: Seq<char>,
    item: JsonTree,
    docs: Seq<char>,
    other: JsonTree,
    other_docs: Seq<char>,
)
    requires
        item.member("docs"@) == Some(JsonTree::Text(docs)),
        other.member("docs"@) == Some(JsonTree::Text(other_docs)),
        blanked_text(docs) != blanked_text(other_docs),
    ensures
        graph::docs_statements(revision, id, item) != graph::docs_statements(revision, id, other),
{
    law_documentation_reads_back(
        revision,
        id,
        item,
        docs,
        about(
            iri::item_iri_text(revision, id) + "/doc"@,
            "rdf:value"@,
            Token::Literal(blanked_text(other_docs)),
        ),
    );
    law_documentation_reads_back(
        revision,
        id,
        other,
        other_docs,
        about(
            iri::item_iri_text(revision, id) + "/doc"@,
            "rdf:value"@,
            Token::Literal(blanked_text(other_docs)),
        ),
    );
}

/// A link reads back from the graph: whatever stands behind `sdoc:linkLabel` says the whole of its
/// label, whatever stands behind `sdoc:to` and `sdoc:references` is its target, and each of them
/// is there.
pub proof fn law_link_reads_back(
    revision: Seq<char>,
    id: Seq<char>,
    label: Seq<char>,
    value: JsonTree,
    t: Triple,
)
    requires
        value is Int || value is Bool || value is Float || (value is Text && value->Text_0.len()
            > 0),
    ensures
        ({
            let told = triples_of(graph::link_statements(revision, id, label, value));
            let subject = iri::item_iri_text(revision, id);
            let edge = subject + "/link/"@ + iri::segment_text(label);
            let target = Token::Iri(iri::item_iri_text(revision, rustdoc::scalar_text(value)));
            &&& told.contains(t) && t.predicate == Token::Word("sdoc:linkLabel"@) ==> t.object
                == Token::Literal(blanked_text(label))
            &&& told.contains(t) && t.predicate == Token::Word("sdoc:to"@) ==> t.object == target
            &&& told.contains(t) && t.predicate == Token::Word("sdoc:from"@) ==> t.object
                == Token::Iri(subject)
            &&& told.contains(t) && t.predicate == Token::Word("sdoc:references"@) ==> t == about(
                subject,
                "sdoc:references"@,
                target,
            )
            &&& told.contains(
                about(edge, "sdoc:linkLabel"@, Token::Literal(blanked_text(label))),
            )
            &&& told.contains(about(edge, "sdoc:to"@, target))
            &&& told.contains(about(edge, "sdoc:from"@, Token::Iri(subject)))
            &&& told.contains(about(subject, "sdoc:references"@, target))
        }),
{
    let told = triples_of(graph::link_statements(revision, id, label, value));
    rustdoc::law_scalar_text(value);
    law_link_is_told(revision, id, label, value);
    reveal_strlit("a");
    reveal_strlit("sdoc:references");
    reveal_strlit("sdoc:from");
    reveal_strlit("sdoc:to");
    reveal_strlit("sdoc:linkLabel");
    reveal_strlit("sdoc:grantsDoAuthority");
    assert("a"@.len() == 1 && "sdoc:references"@.len() == 15 && "sdoc:from"@.len() == 9
        && "sdoc:to"@.len() == 7 && "sdoc:linkLabel"@.len() == 14
        && "sdoc:grantsDoAuthority"@.len() == 22);
    assert(told.contains(told[0]) && told.contains(told[3]) && told.contains(told[4])
        && told.contains(told[5]));
}

/// Two links of an item with different labels, neither of them empty, are told of by different
/// IRIs.
pub proof fn law_links_are_told_apart(
    revision: Seq<char>,
    id: Seq<char>,
    label: Seq<char>,
    value: JsonTree,
    other_label: Seq<char>,
    other: JsonTree,
    edge: Token,
    other_edge: Token,
)
    requires
        value is Int || value is Bool || value is Float || (value is Text && value->Text_0.len()
            > 0),
        other is Int || other is Bool || other is Float || (other is Text && other->Text_0.len()
            > 0),
        label.len() > 0,
        other_label.len() > 0,
        label != other_label,
        exists|t: Triple| #[trigger]
            triples_of(graph::link_statements(revision, id, label, value)).contains(t) && t.subject
                == edge && t.predicate == Token::Word("sdoc:linkLabel"@),
        exists|t: Triple| #[trigger]
            triples_of(graph::link_statements(revision, id, other_label, other)).contains(t)
                && t.subject == other_edge && t.predicate == Token::Word("sdoc:linkLabel"@),
    ensures
        edge != other_edge,
{
    let head = iri::item_iri_text(revision, id) + "/link/"@;
    lemma_edge(revision, id, label, value, edge);
    lemma_edge(revision, id, other_label, other, other_edge);
    if edge == other_edge {
        let a = iri::segment_text(label);
        let b = iri::segment_text(other_label);
        assert((head + a).skip(head.len() as int) =~= a);
        assert((head + b).skip(head.len() as int) =~= b);
        iri::law_segment_injective(label, other_label);
    }
}

proof fn lemma_edge(
    revision: Seq<char>,
    id: Seq<char>,
    label: Seq<char>,
    value: JsonTree,
    edge: Token,
)
    requires
        rustdoc::has_text(value),
        exists|t: Triple| #[trigger]
            triples_of(graph::link_statements(revision, id, label, value)).contains(t) && t.subject
                == edge && t.predicate == Token::Word("sdoc:linkLabel"@),
    ensures
        edge == Token::Iri(
            iri::item_iri_text(revision, id) + "/link/"@ + iri::segment_text(label),
        ),
{
    law_link_is_told(revision, id, label, value);
    reveal_strlit("a");
    reveal_strlit("sdoc:references");
    reveal_strlit("sdoc:from");
    reveal_strlit("sdoc:to");
    reveal_strlit("sdoc:linkLabel");
    reveal_strlit("sdoc:grantsDoAuthority");
    assert("a"@.len() == 1 && "sdoc:references"@.len() == 15 && "sdoc:from"@.len() == 9
        && "sdoc:to"@.len() == 7 && "sdoc:linkLabel"@.len() == 14
        && "sdoc:grantsDoAuthority"@.len() == 22);
}

/// Where a link has no target, an item no place or no documentation, or a document no root item,
/// nothing is said of it.
pub proof fn law_nothing_is_made_up(
    document: JsonTree,
    revision: Seq<char>,
    id: Seq<char>,
    item: JsonTree,
    label: Seq<char>,
    value: JsonTree,
)
    ensures
        value is Null || value is Array || value is Object || value == JsonTree::Text(seq![])
            ==> graph::link_statements(revision, id, label, value).len() == 0,
        !(item.member("span"@) matches Some(JsonTree::Object(_))) ==> graph::span_statements(
            revision,
            id,
            item,
        ).len() == 0,
        !(item.member("docs"@) matches Some(JsonTree::Text(_))) ==> graph::docs_statements(
            revision,
            id,
            item,
        ).len() == 0,
        document.member("root"@) is None || document.member("root"@) == Some(JsonTree::Null)
            ==> graph::root_statements(document, revision).len() == 0,
{
}

/// The root item that the document names is told of the dataset.
pub proof fn law_root_reads_back(document: JsonTree, revision: Seq<char>, root: JsonTree)
    requires
        document.member("root"@) == Some(root),
        root is Int || root is Bool || root is Float || (root is Text && root->Text_0.len() > 0),
    ensures
        triples_of(graph::root_statements(document, revision)) == seq![
            about(
                graph::dataset_iri(revision),
                "sdoc:rootItem"@,
                Token::Iri(iri::item_iri_text(revision, rustdoc::scalar_text(root))),
            ),
        ],
{
    rustdoc::law_scalar_text(root);
    law_root_is_told(document, revision, root);
}

} // verus!
