//! Filling an agent's prompt template with the text it must work on.
use vstd::prelude::*;
use crate::tasks::view_opt;
use crate::text::{chars_of, contains_seq, matches_at, replace_chars, replace_seq, starts_with_seq};

verus! {

/// The placeholder that a template marks the user's text with.
pub open spec fn user_prompt_marker() -> Seq<char> {
    "{user_prompt}"@
}

/// The prompt made from an agent's template (when it could be read) and the
/// text to work on: every placeholder replaced by the text; without a
/// template, the bare placeholder itself.
pub open spec fn spec_fill_prompt(template: Option<Seq<char>>, input: Seq<char>) -> Seq<char> {
    match template {
        Some(t) => replace_seq(t, user_prompt_marker(), input),
        None => user_prompt_marker(),
    }
}

/// Where the template of an agent is kept.
pub open spec fn spec_prompt_path(agent_name: Seq<char>) -> Seq<char> {
    "agents/"@ + agent_name + ".txt"@
}

/// The path of the template file of `agent_name`.
pub fn prompt_path(agent_name: &str) -> (r: String)
    ensures
        r@ == spec_prompt_path(agent_name@),
{
    let mut r = String::from_str("agents/");
    r.append(agent_name);
    r.append(".txt");
    r
}

/// The prompt for an agent: its template with the placeholder replaced by
/// `input`, or the bare placeholder when no template could be read.
pub fn fill_prompt(template: Option<String>, input: &str) -> (r: String)
    ensures
        r@ == spec_fill_prompt(view_opt(template), input@),
{
    proof {
        reveal_strlit("{user_prompt}");
    }
    match template {
        Some(t) => {
            let tc = chars_of(t.as_str());
            let marker = chars_of("{user_prompt}");
            replace_chars(tc.as_slice(), marker.as_slice(), input)
        },
        None => String::from_str("{user_prompt}"),
    }
}

proof fn lemma_replace_absent(s: Seq<char>, pat: Seq<char>, rep: Seq<char>)
    requires
        pat.len() > 0,
        !contains_seq(s, pat),
    ensures
        replace_seq(s, pat, rep) == s,
    decreases s.len(),
{
    if s.len() > 0 {
        assert(!starts_with_seq(s, pat)) by {
            if starts_with_seq(s, pat) {
                assert(matches_at(s, pat, 0));
            }
        }
        let t = s.skip(1);
        assert(!contains_seq(t, pat)) by {
            if contains_seq(t, pat) {
                let i = choose|i: int| matches_at(t, pat, i);
                assert(s.subrange(i + 1, i + 1 + pat.len()) =~= t.subrange(i, i + pat.len()));
                assert(matches_at(s, pat, i + 1));
            }
        }
        lemma_replace_absent(t, pat, rep);
        assert(seq![s[0]] + t =~= s);
    }
}

/// A template without the placeholder is sent as it is, whatever the text.
pub proof fn lemma_fill_without_placeholder(template: Seq<char>, input: Seq<char>)
    requires
        !contains_seq(template, user_prompt_marker()),
    ensures
        spec_fill_prompt(Some(template), input) == template,
{
    reveal_strlit("{user_prompt}");
    lemma_replace_absent(template, user_prompt_marker(), input);
}

proof fn lemma_replace_skips_free_prefix(a: Seq<char>, x: Seq<char>, pat: Seq<char>, rep: Seq<char>)
    requires
        pat.len() > 0,
        forall|k: int| 0 <= k < a.len() ==> #[trigger] a[k] != pat[0],
    ensures
        replace_seq(a + x, pat, rep) == a + replace_seq(x, pat, rep),
    decreases a.len(),
{
    if a.len() == 0 {
        assert(a + x =~= x);
        assert(a + replace_seq(x, pat, rep) =~= replace_seq(x, pat, rep));
    } else {
        let s = a + x;
        assert(s[0] == a[0]);
        assert(!starts_with_seq(s, pat)) by {
            if starts_with_seq(s, pat) {
                assert(s.subrange(0, pat.len() as int)[0] == s[0]);
            }
        }
        let a1 = a.skip(1);
        assert forall|k: int| 0 <= k < a1.len() implies #[trigger] a1[k] != pat[0] by {
            assert(a1[k] == a[k + 1]);
        }
        assert(s.skip(1) =~= a1 + x);
        lemma_replace_skips_free_prefix(a1, x, pat, rep);
        assert(seq![a[0]] + (a1 + replace_seq(x, pat, rep)) =~= a + replace_seq(x, pat, rep));
    }
}

/// A template holding one placeholder, with no `{` anywhere else, becomes
/// the text around the placeholder with the user's text in its place.
pub proof fn lemma_fill_single_placeholder(before: Seq<char>, after: Seq<char>, input: Seq<char>)
    requires
        forall|k: int| 0 <= k < before.len() ==> #[trigger] before[k] != '{',
        forall|k: int| 0 <= k < after.len() ==> #[trigger] after[k] != '{',
    ensures
        spec_fill_prompt(Some(before + user_prompt_marker() + after), input) == before + input + after,
{
    reveal_strlit("{user_prompt}");
    let m = user_prompt_marker();
    assert(m[0] == '{');
    let t = before + m + after;
    assert(t =~= before + (m + after));
    lemma_replace_skips_free_prefix(before, m + after, m, input);
    assert((m + after).subrange(0, m.len() as int) =~= m);
    assert((m + after).skip(m.len() as int) =~= after);
    assert(replace_seq(m + after, m, input) == input + replace_seq(after, m, input));
    lemma_replace_skips_free_prefix(after, Seq::empty(), m, input);
    assert(after + Seq::<char>::empty() =~= after);
    assert(replace_seq(Seq::<char>::empty(), m, input) == Seq::<char>::empty());
    assert(after + Seq::<char>::empty() =~= after);
    assert(before + (input + after) =~= before + input + after);
}

} // verus!
