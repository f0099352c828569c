use vstd::prelude::*;
use vstd::string::StrSliceExecFns;
use vstd::string::StringExecFns;
use crate::error::AnalyzeError;

verus! {

/// The analyzer's structured result: an opaque success value to this core,
/// produced exactly once per request and passed through to the caller.
#[derive(Debug, Clone, PartialEq, Eq)]
pub struct AnalysisResult {
    /// The emitted source text.
    pub code: String,
}

/// Characters the wire encoder replaces with a two-character escape: the
/// quote (34), the backslash (92), newline (10), carriage return (13) and
/// tab (9).
pub open spec fn needs_escape(c: char) -> bool {
    c as int == 34 || c as int == 92 || c as int == 10 || c as int == 13 || c as int == 9
}

/// A control character the encoder has no escape for.
pub open spec fn unencodable(c: char) -> bool {
    (c as int) < 32 && c as int != 10 && c as int != 13 && c as int != 9
}

/// Whether every character of `s` can be encoded.
pub open spec fn escapable(s: Seq<char>) -> bool {
    forall|i: int| 0 <= i < s.len() ==> !unencodable(#[trigger] s[i])
}

/// What one character encodes to inside a JSON string literal.
pub open spec fn esc_char(c: char) -> Seq<char> {
    if c as int == 34 {
        seq!['\\', '"']
    } else if c as int == 92 {
        seq!['\\', '\\']
    } else if c as int == 10 {
        seq!['\\', 'n']
    } else if c as int == 13 {
        seq!['\\', 'r']
    } else if c as int == 9 {
        seq!['\\', 't']
    } else {
        seq![c]
    }
}

/// The JSON escaping of a whole string.
pub open spec fn json_escaped(s: Seq<char>) -> Seq<char>
    decreases s.len(),
{
    if s.len() == 0 {
        Seq::empty()
    } else {
        json_escaped(s.drop_last()) + esc_char(s.last())
    }
}

/// The wire object delivered to callers: a JSON object holding the code.
pub open spec fn wire_of(code: Seq<char>) -> Seq<char> {
    "{\"code\":\""@ + json_escaped(code) + "\"}"@
}

/// A run without escapes passes through the encoding unchanged.
proof fn lemma_escaped_clean_run(s: Seq<char>, a: int, b: int)
    requires
        0 <= a <= b <= s.len(),
        forall|j: int| a <= j < b ==> !needs_escape(#[trigger] s[j]),
    ensures
        json_escaped(s.subrange(0, b)) == json_escaped(s.subrange(0, a)) + s.subrange(a, b),
    decreases b - a,
{
    if a == b {
        assert(s.subrange(a, b) =~= Seq::<char>::empty());
        assert(json_escaped(s.subrange(0, a)) + s.subrange(a, b) =~= json_escaped(
            s.subrange(0, a),
        ));
    } else {
        lemma_escaped_clean_run(s, a, b - 1);
        assert(s.subrange(0, b).drop_last() =~= s.subrange(0, b - 1));
        assert(s.subrange(0, b).last() == s[b - 1]);
        assert(esc_char(s[b - 1]) =~= seq![s[b - 1]]);
        assert(json_escaped(s.subrange(0, a)) + s.subrange(a, b) =~= json_escaped(
            s.subrange(0, a),
        ) + s.subrange(a, b - 1) + esc_char(s[b - 1]));
    }
}

/// One character extends the encoding by its own escape.
proof fn lemma_escaped_step(s: Seq<char>, i: int)
    requires
        0 <= i < s.len(),
    ensures
        json_escaped(s.subrange(0, i + 1)) == json_escaped(s.subrange(0, i)) + esc_char(s[i]),
{
    assert(s.subrange(0, i + 1).drop_last() =~= s.subrange(0, i));
    assert(s.subrange(0, i + 1).last() == s[i]);
}

/// Appends the escape sequence for one special character to `out`.
fn append_escape_code(out: &mut String, code: u8)
    requires
        code == 34 || code == 92 || code == 10 || code == 13 || code == 9,
    ensures
        forall|c: char| c as int == code as int ==> final(out)@ == old(out)@ + esc_char(c),
{
    if code == 34 {
        out.append("\\\"");
        proof {
            reveal_strlit("\\\"");
            assert forall|c: char| c as int == 34 implies out@ == old(out)@ + esc_char(c) by {
                assert("\\\""@ =~= esc_char(c));
            }
        }
    } else if code == 92 {
        out.append("\\\\");
        proof {
            reveal_strlit("\\\\");
            assert forall|c: char| c as int == 92 implies out@ == old(out)@ + esc_char(c) by {
                assert("\\\\"@ =~= esc_char(c));
            }
        }
    } else if code == 10 {
        out.append("\\n");
        proof {
            reveal_strlit("\\n");
            assert forall|c: char| c as int == 10 implies out@ == old(out)@ + esc_char(c) by {
                assert("\\n"@ =~= esc_char(c));
            }
        }
    } else if code == 13 {
        out.append("\\r");
        proof {
            reveal_strlit("\\r");
            assert forall|c: char| c as int == 13 implies out@ == old(out)@ + esc_char(c) by {
                assert("\\r"@ =~= esc_char(c));
            }
        }
    } else {
        out.append("\\t");
        proof {
            reveal_strlit("\\t");
            assert forall|c: char| c as int == 9 implies out@ == old(out)@ + esc_char(c) by {
                assert("\\t"@ =~= esc_char(c));
            }
        }
    }
}

/// Appends the JSON escaping of an ASCII `s` to `out`, copying unescaped
/// runs whole; reports failure exactly when `s` holds a control character
/// the encoder cannot represent.
#[verifier::loop_isolation(false)]
fn append_escaped_ascii(out: &mut String, s: &str) -> (ok: bool)
    requires
        s.is_ascii(),
    ensures
        ok ==> escapable(s@) && final(out)@ == old(out)@ + json_escaped(s@),
        !ok ==> !escapable(s@),
{
    let n = s.unicode_len();
    let mut start: usize = 0;
    let mut i: usize = 0;
    while i < n
        invariant
            start <= i <= n,
            out@ == old(out)@ + json_escaped(s@.subrange(0, start as int)),
            forall|j: int| start <= j < i ==> !needs_escape(#[trigger] s@[j]),
            forall|j: int| 0 <= j < i ==> !unencodable(#[trigger] s@[j]),
        decreases n - i,
    {
        let b = s.get_ascii(i);
        proof {
            assert(s@[i as int] <= '\u{7f}');
            assert(s@[i as int] as int == b as int);
        }
        if b == 34 || b == 92 || b == 10 || b == 13 || b == 9 {
            let run = s.substring_ascii(start, i);
            out.append(run);
            proof {
                lemma_escaped_clean_run(s@, start as int, i as int);
            }
            append_escape_code(out, b);
            proof {
                lemma_escaped_step(s@, i as int);
            }
            start = i + 1;
        } else if b < 32 {
            return false;
        }
        i += 1;
    }
    let tail = s.substring_ascii(start, n);
    out.append(tail);
    proof {
        lemma_escaped_clean_run(s@, start as int, n as int);
        assert(s@.subrange(0, n as int) =~= s@);
    }
    true
}

/// Appends the JSON escaping of `s` to `out` one character at a time; the
/// general path for text with characters beyond ASCII.
#[verifier::loop_isolation(false)]
fn append_escaped_chars(out: &mut String, s: &str) -> (ok: bool)
    ensures
        ok ==> escapable(s@) && final(out)@ == old(out)@ + json_escaped(s@),
        !ok ==> !escapable(s@),
{
    let n = s.unicode_len();
    let mut i: usize = 0;
    while i < n
        invariant
            i <= n,
            out@ == old(out)@ + json_escaped(s@.subrange(0, i as int)),
            forall|j: int| 0 <= j < i ==> !unencodable(#[trigger] s@[j]),
        decreases n - i,
    {
        let c = s.get_char(i);
        let u = c as u32;
        proof {
            lemma_escaped_step(s@, i as int);
        }
        if u == 34 || u == 92 || u == 10 || u == 13 || u == 9 {
            append_escape_code(out, u as u8);
        } else if u < 32 {
            return false;
        } else {
            let piece = s.substring_char(i, i + 1);
            out.append(piece);
            proof {
                assert(piece@ =~= esc_char(c));
            }
        }
        i += 1;
    }
    proof {
        assert(s@.subrange(0, n as int) =~= s@);
    }
    true
}

/// Encodes the analyzer's structured result into the wire format. Encoding
/// fails, with an error distinct from an analysis failure, exactly when the
/// emitted code holds a control character the wire format cannot carry.
pub fn serialize_result(result: &AnalysisResult) -> (r: Result<String, AnalyzeError>)
    ensures
        escapable(result.code@) ==> (r matches Ok(s) && s@ == wire_of(result.code@)),
        !escapable(result.code@) ==> (r matches Err(e) && e matches AnalyzeError::SerializationFailure(_)),
{
    let mut out = String::from_str("{\"code\":\"");
    let body = result.code.as_str();
    let ok = if body.is_ascii() {
        append_escaped_ascii(&mut out, body)
    } else {
        append_escaped_chars(&mut out, body)
    };
    if ok {
        out.append("\"}");
        Ok(out)
    } else {
        Err(
            AnalyzeError::SerializationFailure(
                String::from_str("analyzer output holds an unencodable control character"),
            ),
        )
    }
}

} // verus!
