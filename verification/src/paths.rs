use vstd::prelude::*;
use vstd::string::StrSliceExecFns;
use vstd::string::StringExecFns;

verus! {

/// Whether position `i` of `s` starts a `://` scheme separator.
pub open spec fn scheme_sep_at(s: Seq<char>, i: int) -> bool {
    &&& 0 <= i
    &&& i + 3 <= s.len()
    &&& s[i] == ':'
    &&& s[i + 1] == '/'
    &&& s[i + 2] == '/'
}

/// Whether `s` already carries a scheme separator somewhere.
pub open spec fn has_scheme(s: Seq<char>) -> bool {
    exists|i: int| scheme_sep_at(s, i)
}

/// The URI an arbitrary path string normalizes to: unchanged when it already
/// carries a scheme; prefixed with the local-file scheme when it starts at a
/// root marker; otherwise prefixed with the scheme plus one more separator so
/// the result looks absolute.
pub open spec fn normalize_spec(s: Seq<char>) -> Seq<char> {
    if has_scheme(s) {
        s
    } else if s.len() > 0 && s[0] == '/' {
        "file://"@ + s
    } else {
        "file:///"@ + s
    }
}

/// Pure, failure-free path-to-URI transform, applied on every dispatch path
/// immediately before the analyzer runs.
#[verifier::loop_isolation(false)]
pub fn normalize_path(path: &str) -> (r: String)
    ensures
        r@ == normalize_spec(path@),
{
    let n = path.unicode_len();
    let mut i: usize = 0;
    while n - i >= 3
        invariant
            n == path@.len(),
            i <= n,
            forall|j: int| 0 <= j < i ==> !scheme_sep_at(path@, j),
        decreases n - i,
    {
        if path.get_char(i) == ':' && path.get_char(i + 1) == '/' && path.get_char(i + 2) == '/' {
            proof {
                assert(scheme_sep_at(path@, i as int));
            }
            return String::from_str(path);
        }
        i += 1;
    }
    proof {
        assert forall|j: int| !scheme_sep_at(path@, j) by {
            if 0 <= j < i {
            } else {
                assert(!(0 <= j && j + 3 <= n));
            }
        }
    }
    let prefix: &str = if n > 0 && path.get_char(0) == '/' {
        "file://"
    } else {
        "file:///"
    };
    let mut out = String::from_str(prefix);
    out.append(path);
    out
}

/// Normalization is idempotent: its result always carries a scheme, so a
/// second application passes it through unchanged.
pub proof fn lemma_normalize_idempotent(s: Seq<char>)
    ensures
        normalize_spec(normalize_spec(s)) == normalize_spec(s),
{
    if !has_scheme(s) {
        reveal_strlit("file://");
        reveal_strlit("file:///");
        let r = normalize_spec(s);
        assert(scheme_sep_at(r, 4));
    }
}

} // verus!
