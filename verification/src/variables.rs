//! Variables handed to an upstream query: a JSON object built name by
//! name. The object framing and the escaping of names are verified; callers
//! supply each value as already-serialized JSON text.

use vstd::prelude::*;

verus! {

/// One structured error reported by the upstream API alongside a response.
#[derive(Debug)]
pub struct QueryError {
    pub path: Option<Vec<String>>,
    pub message: String,
}

/// The escape sequence a character becomes inside a JSON string: quote,
/// backslash and control characters are escaped, everything else stands for
/// itself.
pub open spec fn esc_char(c: char) -> Seq<char> {
    if c == '"' {
        seq!['\\', '"']
    } else if c == '\\' {
        seq!['\\', '\\']
    } else if c == '\x08' {
        seq!['\\', 'b']
    } else if c == '\u{c}' {
        seq!['\\', 'f']
    } else if c == '\n' {
        seq!['\\', 'n']
    } else if c == '\r' {
        seq!['\\', 'r']
    } else if c == '\t' {
        seq!['\\', 't']
    } else if (c as u32) < 32 {
        seq!['\\', 'u', '0', '0', hex_char((c as u32) as int / 16), hex_char((c as u32) as int % 16)]
    } else {
        seq![c]
    }
}

/// The lower-case hexadecimal digit for `0 <= d <= 15`.
pub open spec fn hex_char(d: int) -> char {
    if d < 10 {
        (48 + d) as char
    } else {
        (87 + d) as char
    }
}

/// A character sequence with every character escaped for a JSON string.
pub open spec fn json_escaped(s: Seq<char>) -> Seq<char>
    decreases s.len(),
{
    if s.len() == 0 {
        seq![]
    } else {
        esc_char(s[0]) + json_escaped(s.drop_first())
    }
}

/// The JSON string literal for `s`: quotes around the escaped characters.
pub open spec fn json_string(s: Seq<char>) -> Seq<char> {
    seq!['"'] + json_escaped(s) + seq!['"']
}

proof fn lemma_json_escaped_push(s: Seq<char>, k: int)
    requires
        0 <= k < s.len(),
    ensures
        json_escaped(s.take(k + 1)) =~= json_escaped(s.take(k)) + esc_char(s[k]),
    decreases k,
{
    let pre = s.take(k);
    let post = s.take(k + 1);
    if k == 0 {
        assert(post.drop_first() =~= pre);
        assert(post[0] == s[0]);
    } else {
        lemma_json_escaped_push(s.drop_first(), k - 1);
        assert(post.drop_first() =~= s.drop_first().take(k));
        assert(pre.drop_first() =~= s.drop_first().take(k - 1));
        assert(post[0] == s[0] && pre[0] == s[0]);
        assert(json_escaped(post) == esc_char(s[0]) + json_escaped(s.drop_first().take(k)));
        assert(json_escaped(pre) == esc_char(s[0]) + json_escaped(s.drop_first().take(k - 1)));
        assert(s.drop_first()[k - 1] == s[k]);
    }
}

/// The lower-case hexadecimal digit for `0 <= d <= 15`, as a one-character
/// slice.
fn hex_str(d: u32) -> (r: &'static str)
    requires
        d < 16,
    ensures
        r@ =~= seq![hex_char(d as int)],
{
    proof {
        reveal_strlit("0");
        reveal_strlit("1");
        reveal_strlit("2");
        reveal_strlit("3");
        reveal_strlit("4");
        reveal_strlit("5");
        reveal_strlit("6");
        reveal_strlit("7");
        reveal_strlit("8");
        reveal_strlit("9");
        reveal_strlit("a");
        reveal_strlit("b");
        reveal_strlit("c");
        reveal_strlit("d");
        reveal_strlit("e");
        reveal_strlit("f");
    }
    match d {
        0 => "0",
        1 => "1",
        2 => "2",
        3 => "3",
        4 => "4",
        5 => "5",
        6 => "6",
        7 => "7",
        8 => "8",
        9 => "9",
        10 => "a",
        11 => "b",
        12 => "c",
        13 => "d",
        14 => "e",
        _ => "f",
    }
}

/// Appends the JSON string literal for `s` (quotes included) to `out`.
fn append_json_string(out: &mut String, s: &str)
    ensures
        final(out)@ =~= old(out)@ + json_string(s@),
{
    proof {
        reveal_strlit("\"");
    }
    out.append("\"");
    let len = s.unicode_len();
    let mut k: usize = 0;
    let ghost base = out@;
    while k < len
        invariant
            k <= len,
            len == s@.len(),
            out@ =~= base + json_escaped(s@.take(k as int)),
        decreases len - k,
    {
        proof {
            lemma_json_escaped_push(s@, k as int);
            reveal_strlit("\\\"");
            reveal_strlit("\\\\");
            reveal_strlit("\\b");
            reveal_strlit("\\f");
            reveal_strlit("\\n");
            reveal_strlit("\\r");
            reveal_strlit("\\t");
            reveal_strlit("\\u00");
        }
        let ghost pre = out@;
        let c = s.get_char(k);
        if c == '"' {
            out.append("\\\"");
        } else if c == '\\' {
            out.append("\\\\");
        } else if c == '\x08' {
            out.append("\\b");
        } else if c == '\u{c}' {
            out.append("\\f");
        } else if c == '\n' {
            out.append("\\n");
        } else if c == '\r' {
            out.append("\\r");
        } else if c == '\t' {
            out.append("\\t");
        } else if (c as u32) < 32 {
            out.append("\\u00");
            let u: u32 = c as u32;
            out.append(hex_str(u / 16));
            out.append(hex_str(u % 16));
        } else {
            let piece = s.substring_char(k, k + 1);
            out.append(piece);
            proof {
                assert(piece@ =~= esc_char(s@[k as int]));
            }
        }
        proof {
            assert(out@ =~= pre + esc_char(s@[k as int]));
            assert(out@ =~= base + json_escaped(s@.take(k + 1)));
        }
        k = k + 1;
    }
    proof {
        assert(s@.take(len as int) =~= s@);
    }
    out.append("\"");
    proof {
        assert(out@ =~= old(out)@ + json_string(s@));
    }
}

/// Variables for an upstream query: a JSON object under construction. The
/// view is the text accumulated so far, without the closing brace.
pub struct Variables {
    json: String,
}

impl View for Variables {
    type V = Seq<char>;

    closed spec fn view(&self) -> Seq<char> {
        self.json@
    }
}

impl Variables {
    /// An empty variable set.
    pub fn new() -> (r: Self)
        ensures
            r@ =~= Seq::<char>::empty(),
    {
        Variables { json: String::new() }
    }

    /// Adds one variable. `value_json` must already be serialized JSON; the
    /// name is escaped here. The object framing — the opening brace before
    /// the first variable, commas between variables, the colon after each
    /// name — is part of the contract.
    pub fn push(&mut self, name: &str, value_json: &str)
        ensures
            final(self)@ =~= old(self)@ + (if old(self)@.len() == 0 {
                seq!['{']
            } else {
                seq![',']
            }) + json_string(name@) + seq![':'] + value_json@,
    {
        proof {
            reveal_strlit("{");
            reveal_strlit(",");
            reveal_strlit(":");
        }
        if self.json.as_str().is_empty() {
            self.json.append("{");
        } else {
            self.json.append(",");
        }
        append_json_string(&mut self.json, name);
        self.json.append(":");
        self.json.append(value_json);
        proof {
            assert(self.json@ =~= old(self)@ + (if old(self)@.len() == 0 {
                seq!['{']
            } else {
                seq![',']
            }) + json_string(name@) + seq![':'] + value_json@);
        }
    }

    /// Finishes the object: `None` when no variable was pushed, otherwise
    /// the accumulated text with the closing brace.
    pub fn build(self) -> (r: Option<String>)
        ensures
            self@.len() == 0 ==> r is None,
            self@.len() > 0 ==> (r matches Some(s) && s@ =~= self@ + seq!['}']),
    {
        proof {
            reveal_strlit("}");
        }
        let mut json = self.json;
        if json.as_str().is_empty() {
            return None;
        }
        json.append("}");
        proof {
            assert(json@ =~= self@ + seq!['}']);
        }
        Some(json)
    }
}

} // verus!
