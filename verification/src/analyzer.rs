use vstd::prelude::*;
use vstd::string::StrSliceExecFns;

verus! {

/// `s` with every leading byte-order mark removed: the analyzer expects its
/// callers to hand it text already free of one.
pub open spec fn strip_bom(s: Seq<char>) -> Seq<char>
    decreases s.len(),
{
    if s.len() > 0 && s[0] == '\u{feff}' {
        strip_bom(s.drop_first())
    } else {
        s
    }
}

/// Removes every leading byte-order mark, so the text can be handed to the
/// analyzer on any build profile.
pub fn strip_leading_bom(s: &str) -> (r: &str)
    ensures
        r@ == strip_bom(s@),
        r@.len() == 0 || r@[0] != '\u{feff}',
{
    let mut t = s;
    let mut n = t.unicode_len();
    while n > 0 && t.get_char(0) == '\u{feff}'
        invariant
            n == t@.len(),
            strip_bom(t@) == strip_bom(s@),
        decreases n,
    {
        let rest = t.substring_char(1, n);
        proof {
            assert(rest@ =~= t@.drop_first());
        }
        t = rest;
        n = n - 1;
    }
    t
}

/// What the external analyzer returns for a given request. The analyzer is
/// required to be a pure function of `(path, content, env, minify)`, safely
/// callable concurrently from independent threads with no shared mutable
/// state, so its outcome is named here as a function of the request alone
/// rather than restated: `Ok` carries the emitted code, `Err` the analyzer's
/// own failure message.
pub uninterp spec fn analysis_of(
    path: Seq<char>,
    content: Seq<char>,
    env: Seq<char>,
    minify: bool,
) -> Result<Seq<char>, Seq<char>>;

/// Relies on deno_ast: `ModuleSpecifier::parse` on the (already normalized)
/// path, `parse_module` on the text as TypeScript, and
/// `ParsedSource::transpile` to emit plain JavaScript; each is deterministic
/// in its inputs and reports failure through `Result`, so the whole chain is
/// the named function of the request alone. deno_ast expects callers to have
/// stripped a leading byte-order mark and, on debug build profiles, refuses
/// text that still carries one, so that input is excluded here; on every
/// admitted input the chain returns, never panics. `minify` maps to comment
/// removal on emit; `env` belongs to the analyzer's interface and does not
/// influence this analyzer's output.
#[allow(unused_variables)]
#[verifier::external_body]
pub(crate) fn run_analyzer(path: &str, content: &str, env: &str, minify: bool) -> (r: Result<
    String,
    String,
>)
    requires
        content@.len() == 0 || content@[0] != '\u{feff}',
    ensures
        (match r {
            Ok(code) => Result::<Seq<char>, Seq<char>>::Ok(code@),
            Err(msg) => Result::<Seq<char>, Seq<char>>::Err(msg@),
        }) == analysis_of(path@, content@, env@, minify),
{
    let params = deno_ast::ParseParams {
        specifier: deno_ast::ModuleSpecifier::parse(path).map_err(|e| e.to_string())?,
        text: content.into(),
        media_type: deno_ast::MediaType::TypeScript,
        capture_tokens: false,
        scope_analysis: false,
        maybe_syntax: None,
    };
    let parsed = deno_ast::parse_module(params).map_err(|e| e.to_string())?;
    let emit = deno_ast::EmitOptions { remove_comments: minify, ..Default::default() };
    let out = parsed.transpile(&Default::default(), &Default::default(), &emit).map_err(
        |e| e.to_string(),
    )?;
    Ok(out.into_source().text)
}

} // verus!
