use vstd::prelude::*;

use crate::chat_role::{lemma_role_tag_inverse, role_of_tag, role_tag, ChatRole};
use crate::error::CodecError;
use crate::prompt::{transcript_model, Prompt};
use crate::text::{chars_of, push_char, push_chars};

verus! {

/// A message as it stands in text: a role tag, not yet checked, and content.
pub type RawMessage = (Seq<char>, Seq<char>);

pub open spec fn hex_char(d: int) -> char {
    if d < 10 {
        (d + 48) as char
    } else {
        (d + 87) as char
    }
}

/// How one character is written inside a JSON string literal: quote,
/// backslash and control characters are escaped, everything else stands as is.
pub open spec fn escape_char(c: char) -> Seq<char> {
    if c == '"' {
        seq!['\\', '"']
    } else if c == '\\' {
        seq!['\\', '\\']
    } else if c == '\x08' {
        seq!['\\', 'b']
    } else if c == '\x0c' {
        seq!['\\', 'f']
    } else if c == '\n' {
        seq!['\\', 'n']
    } else if c == '\r' {
        seq!['\\', 'r']
    } else if c == '\t' {
        seq!['\\', 't']
    } else if (c as u32) < 0x20 {
        seq!['\\', 'u', '0', '0', hex_char(c as int / 16), hex_char(c as int % 16)]
    } else {
        seq![c]
    }
}

pub open spec fn escape_text(x: Seq<char>) -> Seq<char>
    decreases x.len(),
{
    if x.len() == 0 {
        seq![]
    } else {
        escape_char(x[0]) + escape_text(x.drop_first())
    }
}

/// The JSON string literal for `x`.
pub open spec fn string_literal(x: Seq<char>) -> Seq<char> {
    seq!['"'] + escape_text(x) + seq!['"']
}

pub open spec fn role_key() -> Seq<char> {
    seq!['{', '"', 'r', 'o', 'l', 'e', '"', ':']
}

pub open spec fn content_key() -> Seq<char> {
    seq![',', '"', 'c', 'o', 'n', 't', 'e', 'n', 't', '"', ':']
}

/// The compact JSON object `{"role":...,"content":...}`.
pub open spec fn message_text(m: RawMessage) -> Seq<char> {
    role_key() + string_literal(m.0) + content_key() + string_literal(m.1) + seq!['}']
}

/// The messages' objects, separated by commas.
pub open spec fn items_text(ms: Seq<RawMessage>) -> Seq<char>
    decreases ms.len(),
{
    if ms.len() == 0 {
        seq![]
    } else if ms.len() == 1 {
        message_text(ms[0])
    } else {
        message_text(ms[0]) + seq![','] + items_text(ms.drop_first())
    }
}

/// The compact JSON array of the messages' objects.
pub open spec fn raw_transcript_text(ms: Seq<RawMessage>) -> Seq<char> {
    seq!['['] + items_text(ms) + seq![']']
}

pub open spec fn tagged(m: (ChatRole, Seq<char>)) -> RawMessage {
    (role_tag(m.0), m.1)
}

/// The stored text of a transcript.
pub open spec fn transcript_text(t: Seq<(ChatRole, Seq<char>)>) -> Seq<char> {
    raw_transcript_text(t.map_values(|m: (ChatRole, Seq<char>)| tagged(m)))
}

/// The stored text of one message.
pub open spec fn prompt_text(m: (ChatRole, Seq<char>)) -> Seq<char> {
    message_text(tagged(m))
}

pub open spec fn roles_known(ms: Seq<RawMessage>) -> bool {
    forall|k: int| 0 <= k < ms.len() ==> (#[trigger] role_of_tag(ms[k].0)) is Some
}

pub open spec fn untagged(m: RawMessage) -> (ChatRole, Seq<char>) {
    (role_of_tag(m.0)->0, m.1)
}

/// What decoding a stored transcript yields: the messages whose text it is;
/// `InvalidRole` where it is such a text but names an unknown role;
/// `MalformedTranscript` where it is no such text.
pub open spec fn transcript_of_text(s: Seq<char>) -> Result<
    Seq<(ChatRole, Seq<char>)>,
    CodecError,
> {
    if exists|ms: Seq<RawMessage>| raw_transcript_text(ms) == s {
        let ms = choose|ms: Seq<RawMessage>| raw_transcript_text(ms) == s;
        if roles_known(ms) {
            Ok(ms.map_values(|m: RawMessage| untagged(m)))
        } else {
            Err(CodecError::InvalidRole)
        }
    } else {
        Err(CodecError::MalformedTranscript)
    }
}

/// What decoding one stored message yields, in the same way.
pub open spec fn prompt_of_text(s: Seq<char>) -> Result<
    (ChatRole, Seq<char>),
    CodecError,
> {
    if exists|m: RawMessage| message_text(m) == s {
        let m = choose|m: RawMessage| message_text(m) == s;
        if role_of_tag(m.0) is Some {
            Ok(untagged(m))
        } else {
            Err(CodecError::InvalidRole)
        }
    } else {
        Err(CodecError::MalformedTranscript)
    }
}

// ---- reading back, stated step by step ----

pub open spec fn hex_value(c: char) -> Option<int> {
    if '0' <= c && c <= '9' {
        Some(c as int - 48)
    } else if 'a' <= c && c <= 'f' {
        Some(c as int - 87)
    } else {
        None
    }
}

pub open spec fn short_escape(c: char) -> Option<char> {
    if c == '"' {
        Some('"')
    } else if c == '\\' {
        Some('\\')
    } else if c == 'b' {
        Some('\x08')
    } else if c == 'f' {
        Some('\x0c')
    } else if c == 'n' {
        Some('\n')
    } else if c == 'r' {
        Some('\r')
    } else if c == 't' {
        Some('\t')
    } else {
        None
    }
}

/// The character that the escape starting with the backslash at `i` stands
/// for, and the place after the escape.
pub open spec fn unescape_at(s: Seq<char>, i: int) -> Option<(char, int)> {
    if 0 <= i && i + 1 < s.len() {
        match short_escape(s[i + 1]) {
            Some(c) => Some((c, i + 2)),
            None => {
                if s[i + 1] == 'u' && i + 5 < s.len() && s[i + 2] == '0' && s[i + 3] == '0'
                    && hex_value(s[i + 4]) is Some && hex_value(s[i + 5]) is Some {
                    let code = 16 * hex_value(s[i + 4])->0 + hex_value(s[i + 5])->0;
                    if code < 0x20 && code != 8 && code != 9 && code != 10 && code != 12 && code
                        != 13 {
                        Some((code as char, i + 6))
                    } else {
                        None
                    }
                } else {
                    None
                }
            },
        }
    } else {
        None
    }
}

/// Reads one character of a string literal's inside at `i` (plain or
/// escaped), and the place after it; the closing quote is no character.
pub open spec fn read_char(s: Seq<char>, i: int) -> Option<(char, int)> {
    if i < 0 || i >= s.len() || s[i] == '"' {
        None
    } else if s[i] == '\\' {
        unescape_at(s, i)
    } else if (s[i] as u32) < 0x20 {
        None
    } else {
        Some((s[i], i + 1))
    }
}

/// Reads the inside of a string literal from `i` to its closing quote.
pub open spec fn parse_lit_body(s: Seq<char>, i: int) -> Option<(Seq<char>, int)>
    decreases s.len() - i,
{
    if 0 <= i < s.len() && s[i] == '"' {
        Some((seq![], i + 1))
    } else {
        match read_char(s, i) {
            Some((c, k)) => {
                if i < k {
                    match parse_lit_body(s, k) {
                        Some((x, j)) => Some((seq![c] + x, j)),
                        None => None,
                    }
                } else {
                    None
                }
            },
            None => None,
        }
    }
}

pub open spec fn has_at(s: Seq<char>, i: int, k: Seq<char>) -> bool {
    0 <= i && i + k.len() <= s.len() && s.subrange(i, i + k.len()) == k
}

pub open spec fn parse_lit(s: Seq<char>, i: int) -> Option<(Seq<char>, int)> {
    if has_at(s, i, seq!['"']) {
        parse_lit_body(s, i + 1)
    } else {
        None
    }
}

pub open spec fn parse_message(s: Seq<char>, i: int) -> Option<(RawMessage, int)> {
    if has_at(s, i, role_key()) {
        match parse_lit(s, i + 8) {
            Some((tag, j)) => {
                if has_at(s, j, content_key()) {
                    match parse_lit(s, j + 11) {
                        Some((content, k)) => {
                            if has_at(s, k, seq!['}']) {
                                Some(((tag, content), k + 1))
                            } else {
                                None
                            }
                        },
                        None => None,
                    }
                } else {
                    None
                }
            },
            None => None,
        }
    } else {
        None
    }
}

/// Reads messages from `i` up to the closing bracket, which must end `s`.
pub open spec fn parse_items(s: Seq<char>, i: int) -> Option<Seq<RawMessage>>
    decreases s.len() - i,
{
    match parse_message(s, i) {
        Some((m, j)) => {
            if i < j && j + 1 == s.len() && s[j] == ']' {
                Some(seq![m])
            } else if i < j && j < s.len() && s[j] == ',' {
                match parse_items(s, j + 1) {
                    Some(rest) => Some(seq![m] + rest),
                    None => None,
                }
            } else {
                None
            }
        },
        None => None,
    }
}

pub open spec fn parse_list(s: Seq<char>) -> Option<Seq<RawMessage>> {
    if s == seq!['[', ']'] {
        Some(seq![])
    } else if has_at(s, 0, seq!['[']) {
        parse_items(s, 1)
    } else {
        None
    }
}

// ---- the reading inverts the writing ----

proof fn lemma_has_at_split(s: Seq<char>, i: int, a: Seq<char>, b: Seq<char>)
    ensures
        has_at(s, i, a + b) <==> (has_at(s, i, a) && has_at(s, i + a.len(), b)),
{
    if has_at(s, i, a + b) {
        let w = s.subrange(i, i + (a + b).len());
        assert forall|k: int| 0 <= k < a.len() implies s.subrange(i, i + a.len())[k] == a[k] by {
            assert(w[k] == (a + b)[k]);
        }
        assert forall|k: int| 0 <= k < b.len() implies s.subrange(
            i + a.len(),
            i + a.len() + b.len(),
        )[k] == b[k] by {
            assert(w[k + a.len()] == (a + b)[k + a.len()]);
        }
        assert(s.subrange(i, i + a.len()) =~= a);
        assert(s.subrange(i + a.len(), i + a.len() + b.len()) =~= b);
    }
    if has_at(s, i, a) && has_at(s, i + a.len(), b) {
        assert forall|k: int| 0 <= k < (a + b).len() implies s.subrange(i, i + (a + b).len())[k]
            == (a + b)[k] by {
            if k < a.len() {
                assert(s[i + k] == s.subrange(i, i + a.len())[k]);
            } else {
                assert(s[i + k] == s.subrange(i + a.len(), i + a.len() + b.len())[k - a.len()]);
            }
        }
        assert(s.subrange(i, i + (a + b).len()) =~= a + b);
    }
}

proof fn lemma_has_at_index(s: Seq<char>, i: int, a: Seq<char>, k: int)
    requires
        has_at(s, i, a),
        0 <= k < a.len(),
    ensures
        s[i + k] == a[k],
{
    assert(s[i + k] == s.subrange(i, i + a.len())[k]);
}

proof fn lemma_hex(d: int)
    requires
        0 <= d < 16,
    ensures
        hex_value(hex_char(d)) == Some(d),
{
}

/// Reading at the written form of a character gives that character.
proof fn lemma_read_char_complete(s: Seq<char>, i: int, c: char)
    requires
        has_at(s, i, escape_char(c)),
    ensures
        read_char(s, i) == Some((c, i + escape_char(c).len())),
        s[i] != '"',
{
    let e = escape_char(c);
    lemma_has_at_index(s, i, e, 0);
    if e.len() >= 2 {
        lemma_has_at_index(s, i, e, 1);
    }
    if (c as u32) < 0x20 && c != '\x08' && c != '\x0c' && c != '\n' && c != '\r' && c != '\t' {
        lemma_has_at_index(s, i, e, 2);
        lemma_has_at_index(s, i, e, 3);
        lemma_has_at_index(s, i, e, 4);
        lemma_has_at_index(s, i, e, 5);
        lemma_hex(c as int / 16);
        lemma_hex(c as int % 16);
        let code = 16 * hex_value(s[i + 4])->0 + hex_value(s[i + 5])->0;
        assert(code == c as int);
    }
}

/// What is read as a character is its written form.
proof fn lemma_read_char_sound(s: Seq<char>, i: int)
    requires
        read_char(s, i) is Some,
    ensures
        ({
            let (c, k) = read_char(s, i)->0;
            k == i + escape_char(c).len() && has_at(s, i, escape_char(c))
        }),
{
    let (c, k) = read_char(s, i)->0;
    if s[i] == '\\' {
        if short_escape(s[i + 1]) is None {
            let h1 = hex_value(s[i + 4])->0;
            let h2 = hex_value(s[i + 5])->0;
            let code = 16 * h1 + h2;
            assert(c as int == code);
            assert(code / 16 == h1 && code % 16 == h2);
            assert(hex_char(h1) == s[i + 4]);
            assert(hex_char(h2) == s[i + 5]);
        }
        assert(s.subrange(i, k) =~= escape_char(c));
    } else {
        assert(s.subrange(i, k) =~= escape_char(c));
    }
}

proof fn lemma_lit_body_complete(s: Seq<char>, i: int, x: Seq<char>)
    requires
        has_at(s, i, escape_text(x) + seq!['"']),
    ensures
        parse_lit_body(s, i) == Some((x, i + escape_text(x).len() + 1)),
    decreases x.len(),
{
    if x.len() == 0 {
        lemma_has_at_index(s, i, escape_text(x) + seq!['"'], 0);
    } else {
        let c = x[0];
        let e = escape_char(c);
        let y = x.drop_first();
        assert(escape_text(x) + seq!['"'] =~= e + (escape_text(y) + seq!['"']));
        lemma_has_at_split(s, i, e, escape_text(y) + seq!['"']);
        lemma_read_char_complete(s, i, c);
        lemma_lit_body_complete(s, i + e.len(), y);
        assert(seq![c] + y =~= x);
    }
}

proof fn lemma_lit_body_sound(s: Seq<char>, i: int)
    requires
        parse_lit_body(s, i) is Some,
    ensures
        ({
            let (x, j) = parse_lit_body(s, i)->0;
            j == i + escape_text(x).len() + 1 && has_at(s, i, escape_text(x) + seq!['"'])
        }),
    decreases s.len() - i,
{
    let (x, j) = parse_lit_body(s, i)->0;
    if 0 <= i < s.len() && s[i] == '"' {
        assert(s.subrange(i, i + 1) =~= escape_text(x) + seq!['"']);
    } else {
        let (c, k) = read_char(s, i)->0;
        lemma_read_char_sound(s, i);
        lemma_lit_body_sound(s, k);
        let (y, _) = parse_lit_body(s, k)->0;
        assert(x == seq![c] + y);
        assert(x.drop_first() =~= y);
        assert(escape_text(x) + seq!['"'] =~= escape_char(c) + (escape_text(y) + seq!['"']));
        lemma_has_at_split(s, i, escape_char(c), escape_text(y) + seq!['"']);
    }
}

proof fn lemma_lit_complete(s: Seq<char>, i: int, x: Seq<char>)
    requires
        has_at(s, i, string_literal(x)),
    ensures
        parse_lit(s, i) == Some((x, i + string_literal(x).len())),
{
    assert(string_literal(x) =~= seq!['"'] + (escape_text(x) + seq!['"']));
    lemma_has_at_split(s, i, seq!['"'], escape_text(x) + seq!['"']);
    lemma_lit_body_complete(s, i + 1, x);
}

proof fn lemma_lit_sound(s: Seq<char>, i: int)
    requires
        parse_lit(s, i) is Some,
    ensures
        ({
            let (x, j) = parse_lit(s, i)->0;
            j == i + string_literal(x).len() && has_at(s, i, string_literal(x))
        }),
{
    let (x, j) = parse_lit(s, i)->0;
    lemma_lit_body_sound(s, i + 1);
    assert(string_literal(x) =~= seq!['"'] + (escape_text(x) + seq!['"']));
    lemma_has_at_split(s, i, seq!['"'], escape_text(x) + seq!['"']);
}

proof fn lemma_message_split(s: Seq<char>, i: int, m: RawMessage)
    ensures
        has_at(s, i, message_text(m)) <==> ({
            let at_tag = i + 8;
            let at_ckey = at_tag + string_literal(m.0).len();
            let at_content = at_ckey + 11;
            let at_close = at_content + string_literal(m.1).len();
            &&& has_at(s, i, role_key())
            &&& has_at(s, at_tag, string_literal(m.0))
            &&& has_at(s, at_ckey, content_key())
            &&& has_at(s, at_content, string_literal(m.1))
            &&& has_at(s, at_close, seq!['}'])
        }),
{
    let a = role_key();
    let b = string_literal(m.0);
    let c = content_key();
    let d = string_literal(m.1);
    let e = seq!['}'];
    lemma_has_at_split(s, i, a + b + c + d, e);
    lemma_has_at_split(s, i, a + b + c, d);
    lemma_has_at_split(s, i, a + b, c);
    lemma_has_at_split(s, i, a, b);
}

proof fn lemma_message_complete(s: Seq<char>, i: int, m: RawMessage)
    requires
        has_at(s, i, message_text(m)),
    ensures
        parse_message(s, i) == Some((m, i + message_text(m).len())),
{
    lemma_message_split(s, i, m);
    let at_tag = i + 8;
    let at_ckey = at_tag + string_literal(m.0).len();
    let at_content = at_ckey + 11;
    lemma_lit_complete(s, at_tag, m.0);
    lemma_lit_complete(s, at_content, m.1);
}

proof fn lemma_message_sound(s: Seq<char>, i: int)
    requires
        parse_message(s, i) is Some,
    ensures
        ({
            let (m, j) = parse_message(s, i)->0;
            j == i + message_text(m).len() && has_at(s, i, message_text(m))
        }),
{
    let (m, j) = parse_message(s, i)->0;
    lemma_lit_sound(s, i + 8);
    let (tag, at_ckey) = parse_lit(s, i + 8)->0;
    lemma_lit_sound(s, at_ckey + 11);
    lemma_message_split(s, i, m);
}

proof fn lemma_items_complete(s: Seq<char>, i: int, ms: Seq<RawMessage>)
    requires
        ms.len() >= 1,
        has_at(s, i, items_text(ms) + seq![']']),
        i + items_text(ms).len() + 1 == s.len(),
    ensures
        parse_items(s, i) == Some(ms),
    decreases ms.len(),
{
    let m = ms[0];
    let t = message_text(m);
    if ms.len() == 1 {
        lemma_has_at_split(s, i, t, seq![']']);
        lemma_message_complete(s, i, m);
        lemma_has_at_index(s, i + t.len(), seq![']'], 0);
        assert(seq![m] =~= ms);
    } else {
        let rest = ms.drop_first();
        assert(items_text(ms) + seq![']'] =~= t + (seq![','] + (items_text(rest) + seq![']'])));
        lemma_has_at_split(s, i, t, seq![','] + (items_text(rest) + seq![']']));
        lemma_has_at_split(s, i + t.len(), seq![','], items_text(rest) + seq![']']);
        lemma_message_complete(s, i, m);
        lemma_has_at_index(s, i + t.len(), seq![','], 0);
        lemma_items_complete(s, i + t.len() + 1, rest);
        assert(seq![m] + rest =~= ms);
    }
}

proof fn lemma_items_sound(s: Seq<char>, i: int)
    requires
        parse_items(s, i) is Some,
    ensures
        ({
            let ms = parse_items(s, i)->0;
            &&& ms.len() >= 1
            &&& has_at(s, i, items_text(ms) + seq![']'])
            &&& i + items_text(ms).len() + 1 == s.len()
        }),
    decreases s.len() - i,
{
    let ms = parse_items(s, i)->0;
    let (m, j) = parse_message(s, i)->0;
    lemma_message_sound(s, i);
    let t = message_text(m);
    if j + 1 == s.len() && s[j] == ']' {
        assert(ms == seq![m]);
        assert(s.subrange(j, j + 1) =~= seq![']']);
        lemma_has_at_split(s, i, t, seq![']']);
    } else {
        lemma_items_sound(s, j + 1);
        let rest = parse_items(s, j + 1)->0;
        assert(ms == seq![m] + rest);
        assert(ms.drop_first() =~= rest);
        assert(s.subrange(j, j + 1) =~= seq![',']);
        assert(items_text(ms) + seq![']'] =~= t + (seq![','] + (items_text(rest) + seq![']'])));
        lemma_has_at_split(s, j, seq![','], items_text(rest) + seq![']']);
        lemma_has_at_split(s, i, t, seq![','] + (items_text(rest) + seq![']']));
    }
}

proof fn lemma_items_text_len(ms: Seq<RawMessage>)
    requires
        ms.len() >= 1,
    ensures
        items_text(ms).len() >= 1,
    decreases ms.len(),
{
}

/// Reading the text of any messages gives those messages.
#[verifier::rlimit(30)]
proof fn lemma_list_complete(ms: Seq<RawMessage>)
    ensures
        parse_list(raw_transcript_text(ms)) == Some(ms),
{
    let s = raw_transcript_text(ms);
    if ms.len() == 0 {
        assert(s =~= seq!['[', ']']);
        assert(ms =~= seq![]);
    } else {
        let body = items_text(ms) + seq![']'];
        lemma_items_text_len(ms);
        assert(s =~= seq!['['] + body);
        assert(s != seq!['[', ']']) by {
            assert(s.len() != 2);
        }
        assert(s.subrange(0, s.len() as int) =~= s);
        lemma_has_at_split(s, 0, seq!['['], body);
        lemma_items_complete(s, 1, ms);
    }
}

/// What is read is the text of what it gives.
proof fn lemma_list_sound(s: Seq<char>)
    requires
        parse_list(s) is Some,
    ensures
        raw_transcript_text(parse_list(s)->0) == s,
{
    let ms = parse_list(s)->0;
    if s == seq!['[', ']'] {
        assert(raw_transcript_text(ms) =~= s);
    } else {
        lemma_items_sound(s, 1);
        assert(s.subrange(1, s.len() as int) == items_text(ms) + seq![']']);
        assert(s =~= seq!['['] + s.subrange(1, s.len() as int));
    }
}

/// Decoding the stored text of a transcript gives that transcript back.
pub proof fn lemma_transcript_round_trip(t: Seq<(ChatRole, Seq<char>)>)
    ensures
        transcript_of_text(transcript_text(t)) == Ok::<_, CodecError>(t),
{
    let ms = t.map_values(|m: (ChatRole, Seq<char>)| tagged(m));
    let s = transcript_text(t);
    assert(raw_transcript_text(ms) == s);
    let c = choose|c: Seq<RawMessage>| raw_transcript_text(c) == s;
    lemma_list_complete(ms);
    lemma_list_complete(c);
    assert(c == ms);
    assert forall|k: int| 0 <= k < ms.len() implies (#[trigger] role_of_tag(ms[k].0)) is Some by {
        lemma_role_tag_inverse(t[k].0);
    }
    assert forall|k: int| 0 <= k < t.len() implies untagged(ms[k]) == t[k] by {
        lemma_role_tag_inverse(t[k].0);
    }
    assert(ms.map_values(|m: RawMessage| untagged(m)) =~= t);
}

/// Decoding the stored text of one message gives that message back.
pub proof fn lemma_prompt_round_trip(m: (ChatRole, Seq<char>))
    ensures
        prompt_of_text(prompt_text(m)) == Ok::<_, CodecError>(m),
{
    let s = prompt_text(m);
    let c = choose|c: RawMessage| message_text(c) == s;
    assert(message_text(tagged(m)) == s);
    assert(s.subrange(0, s.len() as int) =~= s);
    lemma_message_complete(s, 0, tagged(m));
    lemma_message_complete(s, 0, c);
    lemma_role_tag_inverse(m.0);
}

/// Writing back a decoded transcript gives the text it was read from.
pub proof fn lemma_transcript_encode_decoded(s: Seq<char>)
    requires
        transcript_of_text(s) is Ok,
    ensures
        transcript_text(transcript_of_text(s)->Ok_0) == s,
{
    let ms = choose|ms: Seq<RawMessage>| raw_transcript_text(ms) == s;
    let t = ms.map_values(|m: RawMessage| untagged(m));
    assert forall|k: int| 0 <= k < ms.len() implies tagged(untagged(ms[k])) == ms[k] by {
        assert(role_of_tag(ms[k].0) is Some);
    }
    assert(t.map_values(|m: (ChatRole, Seq<char>)| tagged(m)) =~= ms);
}

/// Writing back a decoded message gives the text it was read from.
pub proof fn lemma_prompt_encode_decoded(s: Seq<char>)
    requires
        prompt_of_text(s) is Ok,
    ensures
        prompt_text(prompt_of_text(s)->Ok_0) == s,
{
}

// ---- writing ----

proof fn lemma_escape_text_push(x: Seq<char>, c: char)
    ensures
        escape_text(x.push(c)) == escape_text(x) + escape_char(c),
    decreases x.len(),
{
    if x.len() == 0 {
        assert(x.push(c).drop_first() =~= seq![]);
        reveal_with_fuel(escape_text, 2);
        assert(escape_text(x.push(c)) =~= escape_char(c));
    } else {
        assert(x.push(c).drop_first() =~= x.drop_first().push(c));
        lemma_escape_text_push(x.drop_first(), c);
        assert(escape_text(x.push(c)) =~= escape_text(x) + escape_char(c));
    }
}

fn hex_digit(d: u32) -> (c: char)
    requires
        d < 16,
    ensures
        c == hex_char(d as int),
{
    if d < 10 {
        ((d as u8) + 48) as char
    } else {
        ((d as u8) + 87) as char
    }
}

/// Appends the written form of one character.
fn push_escaped(out: &mut String, c: char)
    ensures
        final(out)@ == old(out)@ + escape_char(c),
{
    let ghost start = out@;
    if c == '"' {
        push_char(out, '\\');
        push_char(out, '"');
    } else if c == '\\' {
        push_char(out, '\\');
        push_char(out, '\\');
    } else if c == '\x08' {
        push_char(out, '\\');
        push_char(out, 'b');
    } else if c == '\x0c' {
        push_char(out, '\\');
        push_char(out, 'f');
    } else if c == '\n' {
        push_char(out, '\\');
        push_char(out, 'n');
    } else if c == '\r' {
        push_char(out, '\\');
        push_char(out, 'r');
    } else if c == '\t' {
        push_char(out, '\\');
        push_char(out, 't');
    } else if (c as u32) < 0x20 {
        let code = c as u32;
        push_char(out, '\\');
        push_char(out, 'u');
        push_char(out, '0');
        push_char(out, '0');
        push_char(out, hex_digit(code / 16));
        push_char(out, hex_digit(code % 16));
    } else {
        push_char(out, c);
    }
    assert(out@ =~= start + escape_char(c));
}

/// Appends the JSON string literal of `x`.
fn push_literal(out: &mut String, x: &str)
    ensures
        final(out)@ == old(out)@ + string_literal(x@),
{
    let ghost start = out@;
    push_char(out, '"');
    for c in it: x.chars()
        invariant
            it.seq() == x@,
            out@ == start + seq!['"'] + escape_text(x@.subrange(0, it.index() as int)),
    {
        proof {
            let pre = x@.subrange(0, it.index() as int);
            assert(x@.subrange(0, it.index() + 1) == pre.push(c));
            lemma_escape_text_push(pre, c);
        }
        push_escaped(out, c);
    }
    push_char(out, '"');
    assert(x@.subrange(0, x@.len() as int) == x@);
    assert(out@ =~= start + string_literal(x@));
}

fn push_message(out: &mut String, p: &Prompt)
    ensures
        final(out)@ == old(out)@ + message_text(tagged(p@)),
{
    let ghost start = out@;
    proof {
        reveal_strlit("{\"role\":");
        reveal_strlit(",\"content\":");
    }
    push_chars(out, "{\"role\":");
    push_literal(out, p.role.tag());
    push_chars(out, ",\"content\":");
    push_literal(out, p.content.as_str());
    push_char(out, '}');
    assert(out@ =~= start + message_text(tagged(p@)));
}

proof fn lemma_items_text_push(ms: Seq<RawMessage>, m: RawMessage)
    ensures
        items_text(ms.push(m)) == if ms.len() == 0 {
            message_text(m)
        } else {
            items_text(ms) + seq![','] + message_text(m)
        },
    decreases ms.len(),
{
    if ms.len() == 0 {
        assert(ms.push(m)[0] == m);
    } else if ms.len() == 1 {
        assert(ms.push(m).drop_first() =~= seq![m]);
        assert(ms.push(m)[0] == ms[0]);
        reveal_with_fuel(items_text, 2);
    } else {
        assert(ms.push(m).drop_first() =~= ms.drop_first().push(m));
        lemma_items_text_push(ms.drop_first(), m);
        assert(items_text(ms.push(m)) =~= items_text(ms) + seq![','] + message_text(m));
    }
}

/// The stored text of a transcript: a compact JSON array of
/// `{"role":...,"content":...}` objects, in conversation order.
pub fn encode_transcript(v: &Vec<Prompt>) -> (r: String)
    ensures
        r@ == transcript_text(transcript_model(v@)),
{
    let ghost ms = transcript_model(v@).map_values(|m: (ChatRole, Seq<char>)| tagged(m));
    let mut out = String::new();
    push_char(&mut out, '[');
    let n = v.len();
    let mut i: usize = 0;
    while i < n
        invariant
            n == v@.len(),
            i <= n,
            ms.len() == n,
            forall|k: int| 0 <= k < n ==> #[trigger] ms[k] == tagged(v@[k]@),
            out@ == seq!['['] + items_text(ms.subrange(0, i as int)),
        decreases n - i,
    {
        proof {
            assert(ms.subrange(0, i + 1) == ms.subrange(0, i as int).push(ms[i as int]));
            lemma_items_text_push(ms.subrange(0, i as int), ms[i as int]);
        }
        if i > 0 {
            push_char(&mut out, ',');
        }
        push_message(&mut out, &v[i]);
        i = i + 1;
        assert(out@ =~= seq!['['] + items_text(ms.subrange(0, i as int)));
    }
    push_char(&mut out, ']');
    assert(ms.subrange(0, n as int) =~= ms);
    out
}

impl Prompt {
    /// The stored text of this message: `{"role":...,"content":...}`.
    pub fn to_json(&self) -> (r: String)
        ensures
            r@ == prompt_text(self@),
    {
        let mut out = String::new();
        push_message(&mut out, self);
        assert(out@ =~= prompt_text(self@));
        out
    }
}

// ---- reading ----

pub open spec fn prepend(a: Seq<char>, r: Option<(Seq<char>, int)>) -> Option<(Seq<char>, int)> {
    match r {
        Some((x, j)) => Some((a + x, j)),
        None => None,
    }
}

pub open spec fn raw_of(v: Seq<(String, String)>) -> Seq<RawMessage> {
    v.map_values(|p: (String, String)| (p.0@, p.1@))
}

/// Whether the characters of `k` stand in `v` from `i` on.
fn matches_at(v: &Vec<char>, i: usize, k: &str) -> (r: bool)
    ensures
        r == has_at(v@, i as int, k@),
{
    let m = k.unicode_len();
    let n = v.len();
    if i > n || m > n - i {
        return false;
    }
    let mut j: usize = 0;
    while j < m
        invariant
            n == v@.len(),
            m == k@.len(),
            i + m <= n,
            j <= m,
            v@.subrange(i as int, i + j) == k@.subrange(0, j as int),
        decreases m - j,
    {
        if v[i + j] != k.get_char(j) {
            assert(v@.subrange(i as int, i + m)[j as int] != k@[j as int]);
            return false;
        }
        assert(v@.subrange(i as int, i + j + 1) =~= k@.subrange(0, j + 1));
        j = j + 1;
    }
    assert(k@.subrange(0, m as int) =~= k@);
    true
}

fn hex_val(c: char) -> (r: Option<u32>)
    ensures
        match r {
            Some(d) => hex_value(c) == Some(d as int),
            None => hex_value(c) is None,
        },
{
    if '0' <= c && c <= '9' {
        Some((c as u32) - 48)
    } else if 'a' <= c && c <= 'f' {
        Some((c as u32) - 87)
    } else {
        None
    }
}

fn short_esc(c: char) -> (r: Option<char>)
    ensures
        r == short_escape(c),
{
    if c == '"' {
        Some('"')
    } else if c == '\\' {
        Some('\\')
    } else if c == 'b' {
        Some('\x08')
    } else if c == 'f' {
        Some('\x0c')
    } else if c == 'n' {
        Some('\n')
    } else if c == 'r' {
        Some('\r')
    } else if c == 't' {
        Some('\t')
    } else {
        None
    }
}

fn read_char_at(v: &Vec<char>, i: usize) -> (r: Option<(char, usize)>)
    ensures
        match r {
            Some((c, k)) => read_char(v@, i as int) == Some((c, k as int)) && k <= v@.len(),
            None => read_char(v@, i as int) is None,
        },
{
    let n = v.len();
    if i >= n || v[i] == '"' {
        return None;
    }
    let c = v[i];
    if c == '\\' {
        if i + 1 >= n {
            return None;
        }
        match short_esc(v[i + 1]) {
            Some(e) => Some((e, i + 2)),
            None => {
                if v[i + 1] == 'u' && n - i > 5 && v[i + 2] == '0' && v[i + 3] == '0' {
                    match (hex_val(v[i + 4]), hex_val(v[i + 5])) {
                        (Some(h1), Some(h2)) => {
                            let code = 16 * h1 + h2;
                            if code < 0x20 && code != 8 && code != 9 && code != 10 && code != 12
                                && code != 13 {
                                Some(((code as u8) as char, i + 6))
                            } else {
                                None
                            }
                        },
                        _ => None,
                    }
                } else {
                    None
                }
            },
        }
    } else if (c as u32) < 0x20 {
        None
    } else {
        Some((c, i + 1))
    }
}

fn read_lit_body(v: &Vec<char>, i: usize) -> (r: Option<(String, usize)>)
    ensures
        match r {
            Some((x, j)) => parse_lit_body(v@, i as int) == Some((x@, j as int)) && j <= v@.len(),
            None => parse_lit_body(v@, i as int) is None,
        },
{
    let n = v.len();
    let mut out = String::new();
    let mut pos = i;
    assert(prepend(out@, parse_lit_body(v@, i as int)) == parse_lit_body(v@, i as int)) by {
        match parse_lit_body(v@, i as int) {
            Some((x, j)) => {
                assert(out@ + x =~= x);
            },
            None => {},
        }
    }
    loop
        invariant
            n == v@.len(),
            parse_lit_body(v@, i as int) == prepend(out@, parse_lit_body(v@, pos as int)),
        decreases n + 1 - pos,
    {
        if pos < n && v[pos] == '"' {
            assert(out@ + seq![] =~= out@);
            return Some((out, pos + 1));
        }
        match read_char_at(v, pos) {
            None => {
                return None;
            },
            Some((c, k)) => {
                proof {
                    match parse_lit_body(v@, k as int) {
                        Some((x, j)) => {
                            assert(out@ + (seq![c] + x) =~= out@.push(c) + x);
                        },
                        None => {},
                    }
                }
                if k <= pos {
                    return None;
                }
                push_char(&mut out, c);
                pos = k;
            },
        }
    }
}

fn read_lit(v: &Vec<char>, i: usize) -> (r: Option<(String, usize)>)
    ensures
        match r {
            Some((x, j)) => parse_lit(v@, i as int) == Some((x@, j as int)) && j <= v@.len(),
            None => parse_lit(v@, i as int) is None,
        },
{
    let n = v.len();
    proof {
        reveal_strlit("\"");
    }
    if matches_at(v, i, "\"") {
        assert("\""@ =~= seq!['"']);
        read_lit_body(v, i + 1)
    } else {
        assert("\""@ =~= seq!['"']);
        None
    }
}

fn read_message(v: &Vec<char>, i: usize) -> (r: Option<((String, String), usize)>)
    ensures
        match r {
            Some((m, j)) => parse_message(v@, i as int) == Some(((m.0@, m.1@), j as int)) && j
                <= v@.len(),
            None => parse_message(v@, i as int) is None,
        },
{
    let n = v.len();
    proof {
        reveal_strlit("{\"role\":");
        reveal_strlit(",\"content\":");
        reveal_strlit("}");
        assert("{\"role\":"@ =~= role_key());
        assert(",\"content\":"@ =~= content_key());
        assert("}"@ =~= seq!['}']);
    }
    if !matches_at(v, i, "{\"role\":") {
        return None;
    }
    let (tag, j) = match read_lit(v, i + 8) {
        Some(p) => p,
        None => {
            return None;
        },
    };
    if !matches_at(v, j, ",\"content\":") {
        return None;
    }
    let (content, k) = match read_lit(v, j + 11) {
        Some(p) => p,
        None => {
            return None;
        },
    };
    if !matches_at(v, k, "}") {
        return None;
    }
    Some(((tag, content), k + 1))
}

fn read_items(v: &Vec<char>, i: usize) -> (r: Option<Vec<(String, String)>>)
    ensures
        match r {
            Some(ms) => parse_items(v@, i as int) == Some(raw_of(ms@)),
            None => parse_items(v@, i as int) is None,
        },
{
    let n = v.len();
    let mut out: Vec<(String, String)> = Vec::new();
    let mut pos = i;
    loop
        invariant
            n == v@.len(),
            parse_items(v@, i as int) == match parse_items(v@, pos as int) {
                Some(rest) => Some(raw_of(out@) + rest),
                None => None::<Seq<RawMessage>>,
            },
        decreases n + 1 - pos,
    {
        match read_message(v, pos) {
            None => {
                return None;
            },
            Some((m, j)) => {
                let ghost rm = (m.0@, m.1@);
                proof {
                    assert(raw_of(out@.push(m)) =~= raw_of(out@).push(rm));
                }
                if pos < j && j < n && j + 1 == n && v[j] == ']' {
                    proof {
                        assert(raw_of(out@) + seq![rm] =~= raw_of(out@).push(rm));
                    }
                    out.push(m);
                    return Some(out);
                } else if pos < j && j < n && v[j] == ',' {
                    proof {
                        match parse_items(v@, j + 1) {
                            Some(rest) => {
                                assert(raw_of(out@) + (seq![rm] + rest) =~= raw_of(out@).push(rm)
                                    + rest);
                            },
                            None => {},
                        }
                    }
                    out.push(m);
                    pos = j + 1;
                } else {
                    return None;
                }
            },
        }
    }
}

fn read_list(v: &Vec<char>) -> (r: Option<Vec<(String, String)>>)
    ensures
        match r {
            Some(ms) => parse_list(v@) == Some(raw_of(ms@)),
            None => parse_list(v@) is None,
        },
{
    if v.len() == 2 && v[0] == '[' && v[1] == ']' {
        assert(v@ =~= seq!['[', ']']);
        let out: Vec<(String, String)> = Vec::new();
        assert(raw_of(out@) =~= seq![]);
        return Some(out);
    }
    proof {
        reveal_strlit("[");
        assert("["@ =~= seq!['[']);
        if v@ == seq!['[', ']'] {
            assert(v@.len() == 2 && v@[0] == '[' && v@[1] == ']');
        }
    }
    if matches_at(v, 0, "[") {
        read_items(v, 1)
    } else {
        None
    }
}

/// Reads a stored transcript back: the messages whose text it is, or
/// `InvalidRole` / `MalformedTranscript` as `transcript_of_text` says.
pub fn decode_transcript(s: &str) -> (r: Result<Vec<Prompt>, CodecError>)
    ensures
        match r {
            Ok(v) => transcript_of_text(s@) == Ok::<_, CodecError>(transcript_model(v@)),
            Err(e) => transcript_of_text(s@) == Err::<Seq<(ChatRole, Seq<char>)>, _>(e),
        },
{
    let chars = chars_of(s);
    let items = match read_list(&chars) {
        Some(items) => items,
        None => {
            proof {
                assert forall|ms: Seq<RawMessage>| raw_transcript_text(ms) != s@ by {
                    lemma_list_complete(ms);
                }
            }
            return Err(CodecError::MalformedTranscript);
        },
    };
    let ghost raw = raw_of(items@);
    proof {
        lemma_list_sound(s@);
        let c = choose|c: Seq<RawMessage>| raw_transcript_text(c) == s@;
        lemma_list_complete(c);
        assert(c == raw);
    }
    let n = items.len();
    let mut out: Vec<Prompt> = Vec::new();
    let mut k: usize = 0;
    while k < n
        invariant
            n == items@.len(),
            raw == raw_of(items@),
            transcript_of_text(s@) == (if roles_known(raw) {
                Ok(raw.map_values(|m: RawMessage| untagged(m)))
            } else {
                Err(CodecError::InvalidRole)
            }),
            k <= n,
            out@.len() == k,
            forall|j: int| 0 <= j < k ==> (#[trigger] role_of_tag(raw[j].0)) is Some,
            forall|j: int| 0 <= j < k ==> (#[trigger] out@[j])@ == untagged(raw[j]),
        decreases n - k,
    {
        let tag = chars_of(items[k].0.as_str());
        let role = match ChatRole::from_tag_chars(&tag) {
            Ok(role) => role,
            Err(e) => {
                assert(role_of_tag(raw[k as int].0) is None);
                return Err(e);
            },
        };
        out.push(Prompt { role, content: items[k].1.clone() });
        k = k + 1;
    }
    assert(transcript_model(out@) =~= raw.map_values(|m: RawMessage| untagged(m)));
    Ok(out)
}

impl Prompt {
    /// Reads one stored message back, as `prompt_of_text` says.
    pub fn from_json(s: &str) -> (r: Result<Prompt, CodecError>)
        ensures
            match r {
                Ok(p) => prompt_of_text(s@) == Ok::<_, CodecError>(p@),
                Err(e) => prompt_of_text(s@) == Err::<(ChatRole, Seq<char>), _>(e),
            },
    {
        let chars = chars_of(s);
        let n = chars.len();
        proof {
            assert(s@.subrange(0, s@.len() as int) =~= s@);
            assert forall|c: RawMessage| message_text(c) == s@ implies parse_message(s@, 0) == Some(
                (c, s@.len() as int),
            ) by {
                lemma_message_complete(s@, 0, c);
            }
        }
        let (m, j) = match read_message(&chars, 0) {
            Some(p) => p,
            None => {
                return Err(CodecError::MalformedTranscript);
            },
        };
        if j != n {
            return Err(CodecError::MalformedTranscript);
        }
        proof {
            lemma_message_sound(s@, 0);
            assert(message_text((m.0@, m.1@)) == s@.subrange(0, n as int));
        }
        let tag = chars_of(m.0.as_str());
        let role = ChatRole::from_tag_chars(&tag)?;
        Ok(Prompt { role, content: m.1 })
    }
}

} // verus!
