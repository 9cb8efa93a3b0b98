//! The placeholder that replaces a disabled mod: a jar holding only a
//! `fabric.mod.json` that declares the placeholder identifier. This module gives
//! the manifest's text and entry name; the archive around it is written by the
//! application with the `zip` crate.

use vstd::prelude::*;
use crate::mods::spec_disabled_mod_id;
use crate::text::{decimal, is_digit, lemma_decimal};

verus! {

/// The hexadecimal digit of `d < 16`, in lower case.
pub open spec fn hex_digit(d: int) -> char {
    if d < 10 {
        (d + '0' as int) as char
    } else {
        (d - 10 + 'a' as int) as char
    }
}

/// How `serde_json` writes one character inside a string literal: `"` and `\`
/// after a backslash; backspace, tab, line feed, form feed and carriage return
/// as `\b`, `\t`, `\n`, `\f`, `\r`; the other characters below U+0020 as
/// `\u00` and two lower-case hexadecimal digits; every other character as it is.
pub open spec fn json_escape_char(c: char) -> Seq<char> {
    if c == '"' {
        seq!['\\', '"']
    } else if c == '\\' {
        seq!['\\', '\\']
    } else if c == '\u{8}' {
        seq!['\\', 'b']
    } else if c == '\t' {
        seq!['\\', 't']
    } else if c == '\n' {
        seq!['\\', 'n']
    } else if c == '\u{c}' {
        seq!['\\', 'f']
    } else if c == '\r' {
        seq!['\\', 'r']
    } else if (c as int) < 0x20 {
        seq!['\\', 'u', '0', '0', hex_digit((c as int) / 16), hex_digit((c as int) % 16)]
    } else {
        seq![c]
    }
}

/// The characters of `s`, each written as inside a JSON string literal.
pub open spec fn json_escaped(s: Seq<char>) -> Seq<char>
    decreases s.len(),
{
    if s.len() == 0 {
        Seq::empty()
    } else {
        json_escaped(s.drop_last()) + json_escape_char(s.last())
    }
}

/// What `serde_json::to_string` writes for a string: the characters, escaped,
/// between double quotes.
pub open spec fn spec_json_quote(s: Seq<char>) -> Seq<char> {
    seq!['"'] + json_escaped(s) + seq!['"']
}

/// A character that a JSON string literal holds as it is.
pub open spec fn json_plain(c: char) -> bool {
    c != '"' && c != '\\' && (c as int) >= 0x20
}

/// A text of plain characters is written unchanged inside the quotes.
pub proof fn lemma_escaped_plain(s: Seq<char>)
    requires
        forall|i: int| 0 <= i < s.len() ==> #[trigger] json_plain(s[i]),
    ensures
        json_escaped(s) == s,
    decreases s.len(),
{
    if s.len() > 0 {
        lemma_escaped_plain(s.drop_last());
        assert(json_plain(s[s.len() - 1]));
        assert(s =~= s.drop_last() + seq![s.last()]);
    }
}

/// `serde_json::to_string(s)` for a string. Serialising a string cannot fail;
/// the contract states the literal that `serde_json`'s compact formatter writes.
#[verifier::external_body]
fn json_quote(s: &str) -> (r: String)
    ensures
        r@ == spec_json_quote(s@),
{
    serde_json::to_string(s).unwrap_or_default()
}

/// The manifest of the placeholder for `disabled_id`, as `serde_json` writes the
/// object (members in key order, no spaces).
pub open spec fn spec_stub_mod_json(disabled_id: Seq<char>) -> Seq<char> {
    "{\"description\":\"Placeholder\",\"entrypoints\":{},\"environment\":\"*\",\"id\":"@
        + spec_json_quote(disabled_id)
        + ",\"name\":\"mod is disabled, check files\",\"schemaVersion\":1,\"version\":\"1.0.0\"}"@
}

/// The text of the placeholder manifest.
pub fn stub_mod_json(disabled_id: &str) -> (r: String)
    ensures
        r@ == spec_stub_mod_json(disabled_id@),
{
    let q = json_quote(disabled_id);
    crate::text::owned(
        "{\"description\":\"Placeholder\",\"entrypoints\":{},\"environment\":\"*\",\"id\":",
    ).concat(q.as_str()).concat(
        ",\"name\":\"mod is disabled, check files\",\"schemaVersion\":1,\"version\":\"1.0.0\"}",
    )
}

/// Law: the manifest of the placeholder `disabledmodN` holds that identifier as
/// it is, between quotes, as the value of `id`.
pub proof fn lemma_placeholder_manifest_text(n: u32)
    ensures
        spec_stub_mod_json(spec_disabled_mod_id(n)) == "{\"description\":\"Placeholder\",\"entrypoints\":{},\"environment\":\"*\",\"id\":"@
            + seq!['"'] + spec_disabled_mod_id(n) + seq!['"']
            + ",\"name\":\"mod is disabled, check files\",\"schemaVersion\":1,\"version\":\"1.0.0\"}"@,
{
    reveal_strlit("disabledmod");
    let id = spec_disabled_mod_id(n);
    let d = decimal(n as nat);
    lemma_decimal(n as nat);
    assert forall|i: int| 0 <= i < id.len() implies #[trigger] json_plain(id[i]) by {
        if i >= 11 {
            assert(id[i] == d[i - 11]);
            assert(is_digit(d[i - 11]));
        }
    }
    lemma_escaped_plain(id);
}

/// The name of the placeholder's only archive entry.
pub fn stub_entry_name() -> (r: &'static str)
    ensures
        r@ == "fabric.mod.json"@,
{
    "fabric.mod.json"
}

} // verus!
