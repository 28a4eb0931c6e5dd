//! The calls into `serde_json` that the signaling messages are framed and
//! read with, reduced to plain values.
use vstd::prelude::*;

use crate::text::decimal;

verus! {

/// What a JSON pointer addresses in a JSON document, as plain values.
#[derive(Debug)]
pub enum JsonNode {
    /// The pointer addresses nothing.
    Missing,
    Null,
    Bool(bool),
    Str(String),
    /// A non-negative integer that fits in a `u64`.
    UInt(u64),
    /// Any other number (negative or fractional, or too large).
    OtherNumber,
    /// An array of this many elements.
    Array(usize),
    Object,
}

/// The mathematical value of a [`JsonNode`].
pub enum JsonNodeView {
    Missing,
    Null,
    Bool(bool),
    Str(Seq<char>),
    UInt(u64),
    OtherNumber,
    Array(usize),
    Object,
}

impl View for JsonNode {
    type V = JsonNodeView;

    open spec fn view(&self) -> JsonNodeView {
        match self {
            JsonNode::Missing => JsonNodeView::Missing,
            JsonNode::Null => JsonNodeView::Null,
            JsonNode::Bool(b) => JsonNodeView::Bool(*b),
            JsonNode::Str(s) => JsonNodeView::Str(s@),
            JsonNode::UInt(u) => JsonNodeView::UInt(*u),
            JsonNode::OtherNumber => JsonNodeView::OtherNumber,
            JsonNode::Array(n) => JsonNodeView::Array(*n),
            JsonNode::Object => JsonNodeView::Object,
        }
    }
}

/// What `serde_json::Value::pointer(pointer)` finds in the document `text`
/// parsed by `serde_json::from_str::<serde_json::Value>`; `None` when `text`
/// is not JSON.
pub uninterp spec fn json_lookup(text: Seq<char>, pointer: Seq<char>) -> Option<JsonNodeView>;

/// A lower-case hexadecimal digit, for `n` below 16.
pub open spec fn hex_digit(n: int) -> char {
    seq!['0', '1', '2', '3', '4', '5', '6', '7', '8', '9', 'a', 'b', 'c', 'd', 'e', 'f'][n]
}

/// How serde_json writes one character inside a string literal: the quote
/// and the backslash are escaped with a backslash, backspace, tab, line
/// feed, form feed and carriage return by their short escapes, the other
/// control characters below U+0020 as `\u00` and two lower-case hex
/// digits; every other character stands for itself.
pub open spec fn json_escape_char(c: char) -> Seq<char> {
    if c == '"' {
        seq!['\\', '"']
    } else if c == '\\' {
        seq!['\\', '\\']
    } else if c == '\u{8}' {
        seq!['\\', 'b']
    } else if c == '\t' {
        seq!['\\', 't']
    } else if c == '\n' {
        seq!['\\', 'n']
    } else if c == '\u{c}' {
        seq!['\\', 'f']
    } else if c == '\r' {
        seq!['\\', 'r']
    } else if (c as int) < 0x20 {
        seq!['\\', 'u', '0', '0', hex_digit(c as int / 16), hex_digit(c as int % 16)]
    } else {
        seq![c]
    }
}

/// The characters of `s`, each written as serde_json escapes it.
pub open spec fn json_escaped(s: Seq<char>) -> Seq<char>
    decreases s.len(),
{
    if s.len() == 0 {
        Seq::empty()
    } else {
        json_escaped(s.drop_last()) + json_escape_char(s.last())
    }
}

/// The JSON string literal that `serde_json::to_string` writes for `s`: the
/// escaped characters between double quotes.
pub open spec fn json_quoted(s: Seq<char>) -> Seq<char> {
    seq!['"'] + json_escaped(s) + seq!['"']
}

/// How a string or integer member value is written: a string as serde_json
/// quotes it, an integer in decimal.
pub open spec fn json_value_text(v: JsonNodeView) -> Seq<char> {
    match v {
        JsonNodeView::Str(s) => json_quoted(s),
        JsonNodeView::UInt(n) => decimal(n as nat),
        _ => Seq::empty(),
    }
}

/// One object member, `"key":value`.
pub open spec fn json_member_text(f: (Seq<char>, JsonNodeView)) -> Seq<char> {
    json_quoted(f.0) + seq![':'] + json_value_text(f.1)
}

/// Object members separated by commas.
pub open spec fn json_members_text(fs: Seq<(Seq<char>, JsonNodeView)>) -> Seq<char>
    decreases fs.len(),
{
    if fs.len() == 0 {
        Seq::empty()
    } else if fs.len() == 1 {
        json_member_text(fs[0])
    } else {
        json_members_text(fs.drop_last()) + seq![','] + json_member_text(fs.last())
    }
}

/// The compact text of a JSON object with these members, in order.
pub open spec fn json_object_text(fs: Seq<(Seq<char>, JsonNodeView)>) -> Seq<char> {
    seq!['{'] + json_members_text(fs) + seq!['}']
}

/// A key that a JSON pointer names as it is: no `/` and no `~`.
pub open spec fn plain_key(k: Seq<char>) -> bool {
    forall|i: int| 0 <= i < k.len() ==> #[trigger] k[i] != '/' && k[i] != '~'
}

/// Members of a flat object: plain, distinct keys, each with a string or an
/// integer value.
pub open spec fn flat_members(fs: Seq<(Seq<char>, JsonNodeView)>) -> bool {
    &&& forall|i: int| 0 <= i < fs.len() ==> plain_key((#[trigger] fs[i]).0) && (fs[i].1 is Str || fs[i].1 is UInt)
    &&& forall|i: int, j: int| 0 <= i < fs.len() && 0 <= j < fs.len() && i != j ==> (#[trigger] fs[i]).0 != (#[trigger] fs[j]).0
}

/// What a pointer finds in a flat object with members `fs`, where this is
/// settled: the empty pointer the object itself, `/key` for a plain key the
/// member's value, or nothing when no member has that key.
pub open spec fn object_pointer_result(fs: Seq<(Seq<char>, JsonNodeView)>, pointer: Seq<char>) -> Option<Option<JsonNodeView>> {
    if pointer.len() == 0 {
        Some(Some(JsonNodeView::Object))
    } else if pointer[0] == '/' && plain_key(pointer.drop_first()) {
        if exists|i: int| 0 <= i < fs.len() && (#[trigger] fs[i]).0 == pointer.drop_first() {
            Some(Some(fs[choose|i: int| 0 <= i < fs.len() && (#[trigger] fs[i]).0 == pointer.drop_first()].1))
        } else {
            Some(Some(JsonNodeView::Missing))
        }
    } else {
        None
    }
}

/// `node` is what `pointer` finds in `text` whenever `text` is the compact
/// text of a flat object and the pointer's result there is settled.
pub open spec fn object_facts(text: Seq<char>, pointer: Seq<char>, node: Option<JsonNodeView>) -> bool {
    forall|fs: Seq<(Seq<char>, JsonNodeView)>|
        #[trigger] json_object_text(fs) == text && flat_members(fs) ==> (object_pointer_result(fs, pointer) matches Some(
            e,
        ) ==> node == e)
}

/// Whether serde_json writes `c` inside a string as it is.
pub open spec fn json_plain_char(c: char) -> bool {
    c != '"' && c != '\\' && (c as int) >= 0x20
}

/// A text of characters written as they are is quoted by just the quotes.
pub proof fn lemma_quoted_plain(s: Seq<char>)
    requires
        forall|i: int| 0 <= i < s.len() ==> json_plain_char(#[trigger] s[i]),
    ensures
        json_quoted(s) == seq!['"'] + s + seq!['"'],
    decreases s.len(),
{
    lemma_escaped_plain(s);
}

proof fn lemma_escaped_plain(s: Seq<char>)
    requires
        forall|i: int| 0 <= i < s.len() ==> json_plain_char(#[trigger] s[i]),
    ensures
        json_escaped(s) == s,
    decreases s.len(),
{
    if s.len() > 0 {
        let p = s.drop_last();
        assert forall|i: int| 0 <= i < p.len() implies json_plain_char(#[trigger] p[i]) by {
            assert(p[i] == s[i]);
        }
        lemma_escaped_plain(p);
        assert(json_plain_char(s[s.len() - 1]));
        assert(json_escape_char(s.last()) == seq![s.last()]);
        assert(p.push(s.last()) =~= s);
        assert(p + seq![s.last()] =~= s);
    }
}

/// The optional node, by value.
pub open spec fn opt_node(o: Option<JsonNode>) -> Option<JsonNodeView> {
    match o {
        Some(n) => Some(n@),
        None => None,
    }
}

/// Parses `text` with `serde_json::from_str::<serde_json::Value>` and looks
/// `pointer` up with `serde_json::Value::pointer`; the node found is handed
/// back as plain values. The result is the one named by `json_lookup` for
/// these two texts; for the compact text of a flat object (as serde_json
/// writes one: string values quoted and escaped, integers in decimal), the
/// parser gives that object, and `Value::pointer` finds the object itself
/// for the empty pointer and a member's value, or nothing, for `/key`.
#[verifier::external_body]
pub(crate) fn json_at(text: &str, pointer: &str) -> (r: Option<JsonNode>)
    ensures
        opt_node(r) == json_lookup(text@, pointer@),
        object_facts(text@, pointer@, opt_node(r)),
{
    let doc: serde_json::Value = serde_json::from_str(text).ok()?;
    Some(match doc.pointer(pointer) {
        None => JsonNode::Missing,
        Some(serde_json::Value::Null) => JsonNode::Null,
        Some(serde_json::Value::Bool(b)) => JsonNode::Bool(*b),
        Some(serde_json::Value::String(s)) => JsonNode::Str(s.clone()),
        Some(serde_json::Value::Number(n)) => n.as_u64().map_or(JsonNode::OtherNumber, JsonNode::UInt),
        Some(serde_json::Value::Array(a)) => JsonNode::Array(a.len()),
        Some(serde_json::Value::Object(_)) => JsonNode::Object,
    })
}

/// Writes `s` as a JSON string literal with `serde_json::to_string`, which
/// cannot fail for a string; the contract states the quoting and escaping
/// that serde_json's compact formatter applies (`format_escaped_str`).
#[verifier::external_body]
pub(crate) fn json_quote(s: &str) -> (r: String)
    ensures
        r@ == json_quoted(s@),
{
    serde_json::to_string(s).unwrap_or_default()
}

} // verus!
