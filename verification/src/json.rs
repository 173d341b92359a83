//! Rendering of the finished result set as a pretty-printed JSON array of
//! `{"name": ..., "resolved": ...}` objects, two-space indented, with the
//! conventional JSON string escapes (quote, backslash, and control
//! characters; the latter as `\b`, `\t`, `\n`, `\f`, `\r` or `\u00XX`).

use vstd::prelude::*;

use crate::domain::{Domain, DomainView};

verus! {

/// The lower-case hexadecimal digit for a value below 16.
pub open spec fn spec_hex_digit(n: int) -> char {
    if n == 0 {
        '0'
    } else if n == 1 {
        '1'
    } else if n == 2 {
        '2'
    } else if n == 3 {
        '3'
    } else if n == 4 {
        '4'
    } else if n == 5 {
        '5'
    } else if n == 6 {
        '6'
    } else if n == 7 {
        '7'
    } else if n == 8 {
        '8'
    } else if n == 9 {
        '9'
    } else if n == 10 {
        'a'
    } else if n == 11 {
        'b'
    } else if n == 12 {
        'c'
    } else if n == 13 {
        'd'
    } else if n == 14 {
        'e'
    } else {
        'f'
    }
}

/// How one character appears inside a JSON string literal.
pub open spec fn spec_escape_char(c: char) -> Seq<char> {
    if c == '"' {
        seq!['\\', '"']
    } else if c == '\\' {
        seq!['\\', '\\']
    } else if c == '\u{8}' {
        seq!['\\', 'b']
    } else if c == '\t' {
        seq!['\\', 't']
    } else if c == '\n' {
        seq!['\\', 'n']
    } else if c == '\u{c}' {
        seq!['\\', 'f']
    } else if c == '\r' {
        seq!['\\', 'r']
    } else if (c as u32) < 32 {
        seq![
            '\\',
            'u',
            '0',
            '0',
            spec_hex_digit(((c as u32) / 16) as int),
            spec_hex_digit(((c as u32) % 16) as int),
        ]
    } else {
        seq![c]
    }
}

/// The body of a JSON string literal holding the characters of `s`.
pub open spec fn spec_escape(s: Seq<char>) -> Seq<char>
    decreases s.len(),
{
    if s.len() == 0 {
        Seq::empty()
    } else {
        spec_escape(s.drop_last()) + spec_escape_char(s.last())
    }
}

/// One result object as it appears inside the document, indented one level.
pub open spec fn spec_json_entry(d: DomainView) -> Seq<char> {
    "  {\n    \"name\": \""@ + spec_escape(d.name) + "\",\n    \"resolved\": "@ + (if d.resolved {
        "true"@
    } else {
        "false"@
    }) + "\n  }"@
}

/// All result objects, joined by a comma and a line break.
pub open spec fn spec_json_entries(rs: Seq<DomainView>) -> Seq<char>
    decreases rs.len(),
{
    if rs.len() == 0 {
        Seq::empty()
    } else if rs.len() == 1 {
        spec_json_entry(rs[0])
    } else {
        spec_json_entries(rs.drop_last()) + ",\n"@ + spec_json_entry(rs.last())
    }
}

/// The whole pretty-printed document: `[]` for no results, otherwise the
/// bracketed, line-broken list of result objects.
pub open spec fn spec_json_document(rs: Seq<DomainView>) -> Seq<char> {
    if rs.len() == 0 {
        "[]"@
    } else {
        "[\n"@ + spec_json_entries(rs) + "\n]"@
    }
}

/// Relies on `String::push`: appends exactly the one character.
#[verifier::external_body]
fn push_char(s: &mut String, c: char)
    ensures
        final(s)@ == old(s)@.push(c),
{
    s.push(c);
}

/// The lower-case hexadecimal digit for a value below 16.
fn hex_digit(n: u32) -> (c: char)
    requires
        n < 16,
    ensures
        c == spec_hex_digit(n as int),
{
    if n == 0 {
        '0'
    } else if n == 1 {
        '1'
    } else if n == 2 {
        '2'
    } else if n == 3 {
        '3'
    } else if n == 4 {
        '4'
    } else if n == 5 {
        '5'
    } else if n == 6 {
        '6'
    } else if n == 7 {
        '7'
    } else if n == 8 {
        '8'
    } else if n == 9 {
        '9'
    } else if n == 10 {
        'a'
    } else if n == 11 {
        'b'
    } else if n == 12 {
        'c'
    } else if n == 13 {
        'd'
    } else if n == 14 {
        'e'
    } else {
        'f'
    }
}

/// Appends the escaped form of `name` to `out`.
fn escape_into(out: &mut String, name: &str)
    ensures
        final(out)@ == old(out)@ + spec_escape(name@),
{
    let n = name.unicode_len();
    let mut i: usize = 0;
    while i < n
        invariant
            i <= n,
            n == name@.len(),
            out@ == old(out)@ + spec_escape(name@.take(i as int)),
        decreases n - i,
    {
        let c = name.get_char(i);
        if c == '"' {
            out.append("\\\"");
            proof {
                reveal_strlit("\\\"");
                assert(("\\\"")@ =~= seq!['\\', '"']);
            }
        } else if c == '\\' {
            out.append("\\\\");
            proof {
                reveal_strlit("\\\\");
                assert(("\\\\")@ =~= seq!['\\', '\\']);
            }
        } else if c == '\u{8}' {
            out.append("\\b");
            proof {
                reveal_strlit("\\b");
                assert(("\\b")@ =~= seq!['\\', 'b']);
            }
        } else if c == '\t' {
            out.append("\\t");
            proof {
                reveal_strlit("\\t");
                assert(("\\t")@ =~= seq!['\\', 't']);
            }
        } else if c == '\n' {
            out.append("\\n");
            proof {
                reveal_strlit("\\n");
                assert(("\\n")@ =~= seq!['\\', 'n']);
            }
        } else if c == '\u{c}' {
            out.append("\\f");
            proof {
                reveal_strlit("\\f");
                assert(("\\f")@ =~= seq!['\\', 'f']);
            }
        } else if c == '\r' {
            out.append("\\r");
            proof {
                reveal_strlit("\\r");
                assert(("\\r")@ =~= seq!['\\', 'r']);
            }
        } else {
            let v = c as u32;
            if v < 32 {
                out.append("\\u00");
                push_char(out, hex_digit(v / 16));
                push_char(out, hex_digit(v % 16));
                proof {
                    reveal_strlit("\\u00");
                    assert(("\\u00")@ =~= seq!['\\', 'u', '0', '0']);
                }
            } else {
                push_char(out, c);
            }
        }
        proof {
            assert(name@.take(i + 1).drop_last() =~= name@.take(i as int));
            assert(name@.take(i + 1).last() == name@[i as int]);
            assert(out@ =~= old(out)@ + spec_escape(name@.take(i + 1)));
        }
        i = i + 1;
    }
    proof {
        assert(name@.take(n as int) =~= name@);
    }
}

/// Appends one result object to `out`.
fn entry_into(out: &mut String, d: &Domain)
    ensures
        final(out)@ == old(out)@ + spec_json_entry(d@),
{
    out.append("  {\n    \"name\": \"");
    escape_into(out, d.name.as_str());
    out.append("\",\n    \"resolved\": ");
    if d.resolved {
        out.append("true");
    } else {
        out.append("false");
    }
    out.append("\n  }");
    proof {
        assert(out@ =~= old(out)@ + spec_json_entry(d@));
    }
}

/// Renders the whole result list as the pretty-printed document.
pub fn json_document(items: &Vec<Domain>) -> (r: String)
    ensures
        r@ == spec_json_document(items@.map_values(|d: Domain| d@)),
{
    let ghost vs = items@.map_values(|d: Domain| d@);
    if items.len() == 0 {
        let r = String::from_str("[]");
        return r;
    }
    let mut out = String::from_str("[\n");
    entry_into(&mut out, &items[0]);
    proof {
        assert(vs.take(1)[0] == vs[0]);
        assert(out@ =~= "[\n"@ + spec_json_entries(vs.take(1)));
    }
    let mut i: usize = 1;
    while i < items.len()
        invariant
            1 <= i <= items.len(),
            vs == items@.map_values(|d: Domain| d@),
            vs.len() == items@.len(),
            out@ == "[\n"@ + spec_json_entries(vs.take(i as int)),
        decreases items.len() - i,
    {
        out.append(",\n");
        entry_into(&mut out, &items[i]);
        proof {
            assert(vs.take(i + 1).drop_last() =~= vs.take(i as int));
            assert(vs.take(i + 1).last() == vs[i as int]);
            assert(out@ =~= "[\n"@ + spec_json_entries(vs.take(i + 1)));
        }
        i = i + 1;
    }
    out.append("\n]");
    proof {
        assert(vs.take(i as int) =~= vs);
        assert(out@ =~= spec_json_document(vs));
    }
    out
}

} // verus!
