//! Keeping hook text within the model-visible budget: deciding when text
//! must be spilled to a file, and building the preview that replaces it.

use super::prompt::approx_tokens;
use crate::text::{
    chars_of, is_whitespace, owned, push_str, string_from_chars, trim_start, utf8_len, utf8_len_of,
    utf8_width, char_is_whitespace,
};
use vstd::prelude::*;

verus! {

/// Token budget of hook output when none is configured.
pub const DEFAULT_HOOK_OUTPUT_TOKEN_LIMIT: usize = 2500;

/// The token budget of additional context from one hook.
#[derive(Clone, Copy, Debug, PartialEq, Eq, Structural)]
pub struct AdditionalContextLimit {
    pub token_limit: usize,
}

impl AdditionalContextLimit {
    /// The configured budget, or the default one.
    pub fn from_config(value: Option<usize>) -> (l: AdditionalContextLimit)
        ensures
            l.token_limit == match value {
                Some(v) => v,
                None => DEFAULT_HOOK_OUTPUT_TOKEN_LIMIT,
            },
    {
        AdditionalContextLimit {
            token_limit: match value {
                Some(v) => v,
                None => DEFAULT_HOOK_OUTPUT_TOKEN_LIMIT,
            },
        }
    }
}

impl Default for AdditionalContextLimit {
    fn default() -> (l: AdditionalContextLimit)
        ensures
            l.token_limit == DEFAULT_HOOK_OUTPUT_TOKEN_LIMIT,
    {
        AdditionalContextLimit::from_config(None)
    }
}

/// The estimated tokens of a text.
pub fn approx_token_count(text: &str) -> (n: u128)
    ensures
        n == approx_tokens(utf8_len(text@)),
{
    let bytes = utf8_len_of(text);
    if bytes % 4 == 0 {
        bytes / 4
    } else {
        bytes / 4 + 1
    }
}

/// Whether text must be spilled: the budget is not 0 and the text's estimate exceeds it.
pub open spec fn must_spill(text: Seq<char>, token_limit: usize) -> bool {
    token_limit != 0 && approx_tokens(utf8_len(text)) > token_limit
}

/// Decides whether hook text is over its budget and must be spilled.
pub fn needs_spill(text: &str, limit: AdditionalContextLimit) -> (b: bool)
    ensures
        b == must_spill(text@, limit.token_limit),
{
    limit.token_limit != 0 && approx_token_count(text) > limit.token_limit as u128
}

/// The bytes that `token_limit` tokens allow.
pub open spec fn bytes_for_tokens(token_limit: usize) -> nat {
    (token_limit * 4) as nat
}

/// The longest prefix of `s` that fits in `bytes` UTF-8 bytes.
pub open spec fn prefix_within(s: Seq<char>, bytes: nat) -> Seq<char>
    decreases s.len(),
{
    if s.len() == 0 || utf8_width(s[0]) > bytes {
        Seq::empty()
    } else {
        seq![s[0]] + prefix_within(s.drop_first(), (bytes - utf8_width(s[0])) as nat)
    }
}

proof fn lemma_utf8_len_prepend(c: char, s: Seq<char>)
    ensures
        utf8_len(seq![c] + s) == utf8_width(c) + utf8_len(s),
    decreases s.len(),
{
    if s.len() == 0 {
        assert(seq![c] + s =~= seq![c]);
        assert(seq![c].drop_last() =~= Seq::<char>::empty());
        assert(seq![c].last() == c);
        assert(utf8_len(Seq::<char>::empty()) == 0);
    } else {
        assert((seq![c] + s).drop_last() =~= seq![c] + s.drop_last());
        assert((seq![c] + s).last() == s.last());
        lemma_utf8_len_prepend(c, s.drop_last());
    }
}

/// A prefix that `prefix_within` gives fits.
pub proof fn lemma_prefix_within_fits(s: Seq<char>, bytes: nat)
    ensures
        utf8_len(prefix_within(s, bytes)) <= bytes,
        prefix_within(s, bytes).len() <= s.len(),
        s.subrange(0, prefix_within(s, bytes).len() as int) == prefix_within(s, bytes),
    decreases s.len(),
{
    if s.len() > 0 && utf8_width(s[0]) <= bytes {
        let rest = prefix_within(s.drop_first(), (bytes - utf8_width(s[0])) as nat);
        lemma_prefix_within_fits(s.drop_first(), (bytes - utf8_width(s[0])) as nat);
        lemma_utf8_len_prepend(s[0], rest);
        assert(s.subrange(0, rest.len() + 1int) =~= seq![s[0]] + s.drop_first().subrange(
            0,
            rest.len() as int,
        ));
    }
}

proof fn lemma_utf8_len_append(a: Seq<char>, c: char)
    ensures
        utf8_len(a.push(c)) == utf8_len(a) + utf8_width(c),
{
    assert(a.push(c).drop_last() =~= a);
}

proof fn lemma_prefix_within_step(s: Seq<char>, bytes: nat, k: int)
    requires
        0 <= k < s.len(),
        utf8_len(s.subrange(0, k + 1)) <= bytes,
        prefix_within(s, bytes).len() >= k,
    ensures
        prefix_within(s, bytes).len() >= k + 1,
    decreases k,
{
    lemma_utf8_len_prepend(s[0], s.subrange(1, k + 1));
    assert(s.subrange(0, k + 1) =~= seq![s[0]] + s.subrange(1, k + 1));
    if k > 0 {
        let t = s.drop_first();
        let b2 = (bytes - utf8_width(s[0])) as nat;
        assert(t.subrange(0, k) =~= s.subrange(1, k + 1));
        lemma_prefix_within_step(t, b2, k - 1);
    }
}

proof fn lemma_utf8_len_prefix_mono(s: Seq<char>, k: int)
    requires
        0 <= k <= s.len(),
    ensures
        utf8_len(s.subrange(0, k)) <= utf8_len(s),
    decreases s.len() - k,
{
    if k < s.len() {
        lemma_utf8_len_prefix_mono(s, k + 1);
        lemma_utf8_len_append(s.subrange(0, k), s[k]);
        assert(s.subrange(0, k + 1) =~= s.subrange(0, k).push(s[k]));
    } else {
        assert(s.subrange(0, k) =~= s);
    }
}

fn char_width(c: char) -> (w: u128)
    ensures
        w == utf8_width(c),
        1 <= w <= 4,
{
    let code = c as u32;
    if code < 0x80 {
        1
    } else if code < 0x800 {
        2
    } else if code < 0x10000 {
        3
    } else {
        4
    }
}

/// Cuts text to the budget of `token_limit` tokens at a character boundary.
pub fn truncate_to_approx_token_limit(text: &str, token_limit: usize) -> (r: String)
    ensures
        utf8_len(text@) <= bytes_for_tokens(token_limit) ==> r@ == text@,
        r@ == prefix_within(text@, bytes_for_tokens(token_limit)),
        approx_tokens(utf8_len(r@)) <= token_limit,
{
    let ghost budget = bytes_for_tokens(token_limit);
    let chars = chars_of(text);
    let byte_limit: u128 = token_limit as u128 * 4;
    let mut used: u128 = 0;
    let mut k: usize = 0;
    while k < chars.len() && used + char_width(chars[k]) <= byte_limit
        invariant
            chars@ == text@,
            byte_limit == budget,
            k <= chars@.len(),
            used == utf8_len(chars@.subrange(0, k as int)),
            used <= byte_limit,
            prefix_within(text@, budget).len() >= k,
            used <= 4 * k,
        decreases chars@.len() - k,
    {
        let c = chars[k];
        let width = char_width(c);
        proof {
            lemma_utf8_len_append(chars@.subrange(0, k as int), c);
            assert(chars@.subrange(0, k + 1) =~= chars@.subrange(0, k as int).push(c));
            lemma_prefix_within_step(text@, budget, k as int);
        }
        used = used + width;
        k = k + 1;
    }
    proof {
        lemma_prefix_within_fits(text@, budget);
        let p = prefix_within(text@, budget);
        if p.len() > k {
            lemma_utf8_len_prefix_mono(p, k + 1);
            assert(p.subrange(0, k + 1) =~= text@.subrange(0, k + 1));
            lemma_utf8_len_append(chars@.subrange(0, k as int), chars@[k as int]);
            assert(chars@.subrange(0, k + 1) =~= chars@.subrange(0, k as int).push(chars@[k as int]));
        }
        assert(p.len() == k);
        assert(p == text@.subrange(0, k as int));
        if utf8_len(text@) <= budget {
            if k < text@.len() {
                lemma_utf8_len_prefix_mono(text@, k + 1);
                lemma_utf8_len_append(chars@.subrange(0, k as int), chars@[k as int]);
                assert(chars@.subrange(0, k + 1) =~= chars@.subrange(0, k as int).push(chars@[k as int]));
            }
            assert(text@.subrange(0, text@.len() as int) =~= text@);
        }
    }
    let mut out: Vec<char> = Vec::new();
    let mut i: usize = 0;
    while i < k
        invariant
            k <= chars@.len(),
            i <= k,
            out@ == chars@.subrange(0, i as int),
        decreases k - i,
    {
        out.push(chars[i]);
        i = i + 1;
        assert(out@ =~= chars@.subrange(0, i as int));
    }
    string_from_chars(&out)
}

/// The footer of a spilled preview that points at the saved file.
pub open spec fn spill_footer(path: Seq<char>) -> Seq<char> {
    "\n\nFull hook output saved to: "@ + path
}

/// Builds the footer naming the file that holds the full hook output.
pub fn spilled_output_footer(path: &str) -> (r: String)
    ensures
        r@ == spill_footer(path@),
{
    let mut r = owned("\n\nFull hook output saved to: ");
    push_str(&mut r, path);
    r
}

fn trim_start_str(s: &str) -> (r: String)
    ensures
        r@ == trim_start(s@),
{
    let chars = chars_of(s);
    let mut start: usize = 0;
    assert(s@.subrange(0, s@.len() as int) =~= s@);
    while start < chars.len() && char_is_whitespace(chars[start])
        invariant
            chars@ == s@,
            start <= chars@.len(),
            trim_start(s@) == trim_start(s@.subrange(start as int, s@.len() as int)),
        decreases chars@.len() - start,
    {
        proof {
            let rest = s@.subrange(start as int, s@.len() as int);
            assert(rest.drop_first() =~= s@.subrange(start + 1, s@.len() as int));
            assert(rest[0] == s@[start as int]);
        }
        start = start + 1;
    }
    proof {
        assert(s@.subrange(0, s@.len() as int) =~= s@);
    }
    let mut out: Vec<char> = Vec::new();
    let mut i = start;
    while i < chars.len()
        invariant
            chars@ == s@,
            start <= i <= chars@.len(),
            out@ == s@.subrange(start as int, i as int),
        decreases chars@.len() - i,
    {
        out.push(chars[i]);
        i = i + 1;
        assert(out@ =~= s@.subrange(start as int, i as int));
    }
    string_from_chars(&out)
}

/// Whether text fits a budget of `token_limit` estimated tokens.
pub open spec fn fits_budget(text: Seq<char>, token_limit: usize) -> bool {
    approx_tokens(utf8_len(text)) <= token_limit
}

/// Whether the cut of the text for `n` body tokens, followed by the suffix,
/// was seen not to fit: some result of `truncate(n)` makes it too long.
pub open spec fn cut_fails<F: Fn(usize) -> String>(
    truncate: F,
    suffix: Seq<char>,
    token_limit: usize,
    n: usize,
) -> bool {
    exists|t: String|
        #![trigger call_ensures(truncate, (n,), t)]
        call_ensures(truncate, (n,), t) && !fits_budget(t@ + suffix, token_limit)
}

/// Whether `r` is a preview that `bounded_formatted_preview` may build: the
/// cut of the text for some number `n` of body tokens within the budget,
/// followed by the suffix, where `n` is the budget itself or the cut for
/// `n + 1` tokens does not fit; or, when the cut for 0 tokens does not fit,
/// that cut (without a suffix) or the suffix without leading white space,
/// cut to the budget.
pub open spec fn preview_shape<F: Fn(usize) -> String>(
    truncate: F,
    suffix: Seq<char>,
    token_limit: usize,
    r: Seq<char>,
) -> bool {
    ||| exists|n: usize, t: String|
        #![trigger call_ensures(truncate, (n,), t)]
        {
            &&& n <= token_limit
            &&& call_ensures(truncate, (n,), t)
            &&& r == t@ + suffix
            &&& (n == token_limit || cut_fails(truncate, suffix, token_limit, (n + 1) as usize))
        }
    ||| cut_fails(truncate, suffix, token_limit, 0usize) && suffix.len() == 0 && exists|t: String|
        #![trigger call_ensures(truncate, (0usize,), t)]
        call_ensures(truncate, (0usize,), t) && r == prefix_within(t@, bytes_for_tokens(token_limit))
    ||| cut_fails(truncate, suffix, token_limit, 0usize) && suffix.len() > 0 && r == prefix_within(
        trim_start(suffix),
        bytes_for_tokens(token_limit),
    )
}

/// Builds the preview of oversized hook text: the longest head/tail cut of
/// the text (made by `truncate` for a given number of body tokens) that,
/// followed by `suffix`, fits the budget, found by bisection. When even the
/// suffix alone reaches the budget, the suffix is given without leading white
/// space; when no cut fits, the cut for 0 tokens (or the bare suffix) is cut
/// to the budget.
pub fn bounded_formatted_preview<F: Fn(usize) -> String>(
    suffix: &str,
    token_limit: usize,
    truncate: &F,
) -> (r: String)
    requires
        forall|n: usize| truncate.requires((n,)),
    ensures
        suffix@.len() > 0 && approx_tokens(utf8_len(suffix@)) >= token_limit ==> r@ == trim_start(
            suffix@,
        ),
        !(suffix@.len() > 0 && approx_tokens(utf8_len(suffix@)) >= token_limit) ==> fits_budget(
            r@,
            token_limit,
        ) && preview_shape(*truncate, suffix@, token_limit, r@),
{
    if suffix.unicode_len() > 0 && approx_token_count(suffix) >= token_limit as u128 {
        return trim_start_str(suffix);
    }
    let mut low: usize = 0;
    let mut high: usize = token_limit;
    let mut best: Option<String> = None;
    while low <= high
        invariant_except_break
            best is None ==> low == 0,
            match best {
                Some(b) => {
                    &&& low >= 1
                    &&& fits_budget(b@, token_limit)
                    &&& exists|t: String|
                        #![trigger call_ensures(*truncate, ((low - 1) as usize,), t)]
                        call_ensures(*truncate, ((low - 1) as usize,), t) && b@ == t@ + suffix@
                },
                None => true,
            },
        invariant
            high <= token_limit,
            high == token_limit || cut_fails(*truncate, suffix@, token_limit, (high + 1) as usize),
            low <= high + 1,
            forall|n: usize| truncate.requires((n,)),
        ensures
            high <= token_limit,
            high == token_limit || cut_fails(*truncate, suffix@, token_limit, (high + 1) as usize),
            match best {
                Some(b) => {
                    &&& fits_budget(b@, token_limit)
                    &&& exists|t: String|
                        #![trigger call_ensures(*truncate, (high,), t)]
                        call_ensures(*truncate, (high,), t) && b@ == t@ + suffix@
                },
                None => cut_fails(*truncate, suffix@, token_limit, 0usize),
            },
            forall|n: usize| truncate.requires((n,)),
        decreases high - low + 1,
    {
        let body_tokens = low + (high - low) / 2;
        let cut = truncate(body_tokens);
        let ghost cut_value = cut;
        let mut preview = cut;
        push_str(&mut preview, suffix);
        if approx_token_count(preview.as_str()) <= token_limit as u128 {
            assert(call_ensures(*truncate, (body_tokens,), cut_value) && preview@ == cut_value@
                + suffix@);
            best = Some(preview);
            if body_tokens == high {
                break;
            }
            low = body_tokens + 1;
            assert(((low - 1) as usize) == body_tokens);
        } else if body_tokens == 0 {
            assert(call_ensures(*truncate, (0usize,), cut_value) && !fits_budget(
                cut_value@ + suffix@,
                token_limit,
            ));
            break;
        } else {
            assert(call_ensures(*truncate, (body_tokens,), cut_value) && !fits_budget(
                cut_value@ + suffix@,
                token_limit,
            ));
            high = body_tokens - 1;
            assert(((high + 1) as usize) == body_tokens);
        }
    }
    match best {
        Some(b) => b,
        None => {
            if suffix.unicode_len() == 0 {
                let cut = truncate(0);
                let ghost cut_value = cut;
                let r = truncate_to_approx_token_limit(cut.as_str(), token_limit);
                assert(call_ensures(*truncate, (0usize,), cut_value) && r@ == prefix_within(
                    cut_value@,
                    bytes_for_tokens(token_limit),
                ));
                r
            } else {
                let fallback = trim_start_str(suffix);
                truncate_to_approx_token_limit(fallback.as_str(), token_limit)
            }
        },
    }
}

/// The name of the file that holds a spilled output: a fresh random UUID
/// and `.txt`.
pub fn spill_file_name() -> (r: String)
    ensures
        exists|v: u128|
            crate::ids::is_random_uuid(v) && r@ == crate::ids::uuid_text(v) + ".txt"@,
{
    let v = crate::ids::random_uuid();
    let mut name = crate::ids::format_uuid(v);
    push_str(&mut name, ".txt");
    name
}

} // verus!
