//! Prompt templates: placeholders replaced in one pass over the template.

use vstd::prelude::*;
use crate::text::{chars_of, string_of};

verus! {

/// A placeholder and the text that takes its place.
pub struct Binding {
    pub key: String,
    pub value: String,
}

impl Binding {
    pub open spec fn pair(self) -> (Seq<char>, Seq<char>) {
        (self.key@, self.value@)
    }
}

/// The placeholders and their values as plain sequences.
pub open spec fn pairs_of(bindings: Seq<Binding>) -> Seq<(Seq<char>, Seq<char>)> {
    bindings.map_values(|b: Binding| b.pair())
}

/// `key` is not empty and stands in `t` at position `i`.
pub open spec fn occurs_at(t: Seq<char>, i: int, key: Seq<char>) -> bool {
    &&& key.len() > 0
    &&& 0 <= i
    &&& i + key.len() <= t.len()
    &&& t.subrange(i, i + key.len()) == key
}

/// The first binding at or after `k` whose placeholder stands in `t` at `i`.
pub open spec fn first_match(t: Seq<char>, i: int, vars: Seq<(Seq<char>, Seq<char>)>, k: int) -> Option<int>
    decreases vars.len() - k,
{
    if k < 0 || k >= vars.len() {
        None
    } else if occurs_at(t, i, vars[k].0) {
        Some(k)
    } else {
        first_match(t, i, vars, k + 1)
    }
}

/// The expansion of `t` from position `i` on: where a placeholder stands, its value is
/// written out and reading goes on behind the placeholder; elsewhere the character is
/// copied. What a value holds is never read again.
pub open spec fn expand_from(t: Seq<char>, i: int, vars: Seq<(Seq<char>, Seq<char>)>) -> Seq<char>
    decreases t.len() - i,
{
    if i < 0 || i >= t.len() {
        Seq::empty()
    } else {
        match first_match(t, i, vars, 0) {
            Some(k) => if 0 <= k < vars.len() && occurs_at(t, i, vars[k].0) {
                vars[k].1 + expand_from(t, i + vars[k].0.len(), vars)
            } else {
                Seq::empty()
            },
            None => seq![t[i]] + expand_from(t, i + 1, vars),
        }
    }
}

/// The expansion of the whole template.
pub open spec fn expand(t: Seq<char>, vars: Seq<(Seq<char>, Seq<char>)>) -> Seq<char> {
    expand_from(t, 0, vars)
}

/// Whether `key` stands in `t` at position `i`.
pub fn matches_at(t: &[char], i: usize, key: &[char]) -> (r: bool)
    requires
        i <= t.len(),
    ensures
        r == occurs_at(t@, i as int, key@),
{
    let n = key.len();
    if n == 0 || n > t.len() - i {
        return false;
    }
    let mut j: usize = 0;
    while j < n
        invariant
            j <= n,
            n == key.len(),
            i + n <= t.len(),
            forall|x: int| 0 <= x < j ==> t@[i + x] == key@[x],
        decreases n - j,
    {
        if t[i + j] != key[j] {
            proof {
                let sub = t@.subrange(i as int, i + n);
                assert(sub[j as int] == t@[i + j]);
            }
            return false;
        }
        j += 1;
    }
    assert(t@.subrange(i as int, i + n) =~= key@);
    true
}

/// Replaces every placeholder of `bindings` in `template` by its value, reading the
/// template once from left to right. Where several placeholders stand at one place,
/// the one listed first is taken.
pub fn apply_template(template: &str, bindings: &Vec<Binding>) -> (out: String)
    ensures
        out@ == expand(template@, pairs_of(bindings@)),
{
    let t = chars_of(template);
    let ghost vars = pairs_of(bindings@);
    let mut keys: Vec<Vec<char>> = Vec::new();
    let mut values: Vec<Vec<char>> = Vec::new();
    let mut b: usize = 0;
    while b < bindings.len()
        invariant
            b <= bindings.len(),
            keys.len() == b,
            values.len() == b,
            vars == pairs_of(bindings@),
            forall|j: int| 0 <= j < b ==> (#[trigger] keys@[j])@ == vars[j].0,
            forall|j: int| 0 <= j < b ==> (#[trigger] values@[j])@ == vars[j].1,
        decreases bindings.len() - b,
    {
        keys.push(chars_of(bindings[b].key.as_str()));
        values.push(chars_of(bindings[b].value.as_str()));
        b += 1;
    }
    let mut out: Vec<char> = Vec::new();
    let mut i: usize = 0;
    while i < t.len()
        invariant
            i <= t.len(),
            t@ == template@,
            vars == pairs_of(bindings@),
            keys.len() == bindings.len(),
            values.len() == bindings.len(),
            forall|j: int| 0 <= j < keys.len() ==> (#[trigger] keys@[j])@ == vars[j].0,
            forall|j: int| 0 <= j < values.len() ==> (#[trigger] values@[j])@ == vars[j].1,
            out@ + expand_from(t@, i as int, vars) == expand(t@, vars),
        decreases t.len() - i,
    {
        let mut k: usize = 0;
        let mut found = false;
        while k < keys.len()
            invariant_except_break
                !found,
            invariant
                k <= keys.len(),
                i < t.len(),
                keys.len() == vars.len(),
                forall|j: int| 0 <= j < keys.len() ==> (#[trigger] keys@[j])@ == vars[j].0,
                first_match(t@, i as int, vars, 0) == first_match(t@, i as int, vars, k as int),
            ensures
                k <= keys.len(),
                found ==> k < keys.len() && first_match(t@, i as int, vars, 0) == Some(k as int)
                    && occurs_at(t@, i as int, vars[k as int].0),
                !found ==> first_match(t@, i as int, vars, 0) is None,
            decreases keys.len() - k,
        {
            if matches_at(t.as_slice(), i, keys[k].as_slice()) {
                found = true;
                break;
            }
            k += 1;
        }
        if found {
            let ghost before = out@;
            let v = &values[k];
            let mut j: usize = 0;
            while j < v.len()
                invariant
                    j <= v.len(),
                    out@ == before + v@.take(j as int),
                decreases v.len() - j,
            {
                out.push(v[j]);
                assert(v@.take(j + 1) =~= v@.take(j as int).push(v@[j as int]));
                assert((before + v@.take(j as int)).push(v@[j as int]) =~= before + v@.take(j + 1));
                j += 1;
            }
            assert(v@.take(v.len() as int) =~= v@);
            let step = keys[k].len();
            proof {
                let rest = expand_from(t@, i + step, vars);
                assert(expand_from(t@, i as int, vars) == vars[k as int].1 + rest);
                assert((before + v@) + rest =~= before + (v@ + rest));
            }
            i += step;
        } else {
            let ghost before = out@;
            out.push(t[i]);
            proof {
                let rest = expand_from(t@, i + 1, vars);
                assert(expand_from(t@, i as int, vars) == seq![t@[i as int]] + rest);
                assert(before.push(t@[i as int]) + rest =~= before + (seq![t@[i as int]] + rest));
            }
            i += 1;
        }
    }
    assert(out@ + Seq::<char>::empty() =~= out@);
    string_of(out.as_slice())
}

/// The four placeholders of an insight prompt with their values. A session without a
/// topic reads "Not specified"; without retrieved passages the prompt says so.
pub open spec fn prompt_bindings(
    transcription: Seq<char>,
    previous_context: Seq<char>,
    session_topic: Option<Seq<char>>,
    retrieved_context: Option<Seq<char>>,
) -> Seq<(Seq<char>, Seq<char>)> {
    seq![
        ("{{transcription}}"@, transcription),
        ("{{previous_context}}"@, previous_context),
        (
            "{{session_topic}}"@,
            match session_topic {
                Some(t) => t,
                None => "Not specified"@,
            },
        ),
        (
            "{{retrieved_context}}"@,
            match retrieved_context {
                Some(r) => r,
                None => "No additional context available"@,
            },
        ),
    ]
}

/// The view of an optional string slice.
pub open spec fn opt_view(s: Option<&str>) -> Option<Seq<char>> {
    match s {
        Some(t) => Some(t@),
        None => None,
    }
}

/// Fills `{{transcription}}`, `{{previous_context}}` and `{{session_topic}}` into
/// `template`; `{{retrieved_context}}` is filled as for a prompt without retrieval.
pub fn apply_prompt_template(
    template: &str,
    transcription: &str,
    previous_context: &str,
    session_topic: Option<&str>,
) -> (out: String)
    ensures
        out@ == expand(
            template@,
            prompt_bindings(transcription@, previous_context@, opt_view(session_topic), None),
        ),
{
    apply_prompt_template_with_rag(template, transcription, previous_context, session_topic, None)
}

/// Fills the four placeholders of an insight prompt into `template` in one pass.
pub fn apply_prompt_template_with_rag(
    template: &str,
    transcription: &str,
    previous_context: &str,
    session_topic: Option<&str>,
    retrieved_context: Option<&str>,
) -> (out: String)
    ensures
        out@ == expand(
            template@,
            prompt_bindings(
                transcription@,
                previous_context@,
                opt_view(session_topic),
                opt_view(retrieved_context),
            ),
        ),
{
    let topic = match session_topic {
        Some(t) => t,
        None => "Not specified",
    };
    let retrieved = match retrieved_context {
        Some(r) => r,
        None => "No additional context available",
    };
    let mut bindings: Vec<Binding> = Vec::new();
    bindings.push(Binding { key: "{{transcription}}".to_owned(), value: transcription.to_owned() });
    bindings.push(
        Binding { key: "{{previous_context}}".to_owned(), value: previous_context.to_owned() },
    );
    bindings.push(Binding { key: "{{session_topic}}".to_owned(), value: topic.to_owned() });
    bindings.push(Binding { key: "{{retrieved_context}}".to_owned(), value: retrieved.to_owned() });
    assert(pairs_of(bindings@) =~= prompt_bindings(
        transcription@,
        previous_context@,
        opt_view(session_topic),
        opt_view(retrieved_context),
    ));
    apply_template(template, &bindings)
}

/// The one placeholder of a rewrite prompt with the transcript that fills it.
pub open spec fn output_binding(transcription: Seq<char>) -> Seq<(Seq<char>, Seq<char>)> {
    seq![("${output}"@, transcription)]
}

/// Fills `${output}` into a rewrite prompt.
pub fn fill_output_placeholder(prompt: &str, transcription: &str) -> (out: String)
    ensures
        out@ == expand(prompt@, output_binding(transcription@)),
{
    let mut bindings: Vec<Binding> = Vec::new();
    bindings.push(Binding { key: "${output}".to_owned(), value: transcription.to_owned() });
    assert(pairs_of(bindings@) =~= output_binding(transcription@));
    apply_template(prompt, &bindings)
}

/// A template that is exactly one placeholder expands to that placeholder's value,
/// whatever the value holds: placeholders inside a value stay as they are.
pub proof fn lemma_value_is_not_expanded(vars: Seq<(Seq<char>, Seq<char>)>, k: int)
    requires
        0 <= k < vars.len(),
        vars[k].0.len() > 0,
        forall|j: int| 0 <= j < k ==> !occurs_at(vars[k].0, 0, #[trigger] vars[j].0),
    ensures
        expand(vars[k].0, vars) == vars[k].1,
{
    let t = vars[k].0;
    assert(t.subrange(0, t.len() as int) =~= t);
    assert(occurs_at(t, 0, vars[k].0));
    lemma_first_match_is(t, 0, vars, 0, k);
    assert(expand_from(t, t.len() as int, vars) =~= Seq::<char>::empty());
    assert(vars[k].1 + Seq::<char>::empty() =~= vars[k].1);
}

proof fn lemma_first_match_is(t: Seq<char>, i: int, vars: Seq<(Seq<char>, Seq<char>)>, from: int, k: int)
    requires
        0 <= from <= k < vars.len(),
        occurs_at(t, i, vars[k].0),
        forall|j: int| from <= j < k ==> !occurs_at(t, i, #[trigger] vars[j].0),
    ensures
        first_match(t, i, vars, from) == Some(k),
    decreases k - from,
{
    if from < k {
        lemma_first_match_is(t, i, vars, from + 1, k);
    }
}

/// The first `n` of `chunks`, with an empty line between each two.
pub open spec fn chunks_joined(chunks: Seq<Seq<char>>, n: nat) -> Seq<char>
    decreases n,
{
    if n == 0 || n > chunks.len() {
        Seq::empty()
    } else if n == 1 {
        chunks[0]
    } else {
        chunks_joined(chunks, (n - 1) as nat) + "\n\n"@ + chunks[n - 1]
    }
}

/// What a prompt is told of the knowledge base: the chunks found, best first, with an
/// empty line between each two; nothing where none was found.
pub open spec fn retrieved_context_of(chunks: Seq<Seq<char>>) -> Option<Seq<char>> {
    if chunks.len() == 0 {
        None
    } else {
        Some(chunks_joined(chunks, chunks.len()))
    }
}

/// The context for a prompt, made of the chunks that a search found.
pub fn retrieved_context(chunks: &Vec<String>) -> (r: Option<String>)
    ensures
        crate::text::opt_chars(r) == retrieved_context_of(crate::text::each_chars(chunks@)),
{
    if chunks.len() == 0 {
        return None;
    }
    let ghost all = crate::text::each_chars(chunks@);
    let mut out = String::new();
    let mut i: usize = 0;
    while i < chunks.len()
        invariant
            i <= chunks.len(),
            all == crate::text::each_chars(chunks@),
            out@ == chunks_joined(all, i as nat),
        decreases chunks.len() - i,
    {
        assert(all[i as int] == chunks@[i as int]@);
        if i > 0 {
            crate::text::push_text(&mut out, "\n\n");
        }
        crate::text::push_text(&mut out, chunks[i].as_str());
        assert(out@ =~= chunks_joined(all, (i + 1) as nat));
        i += 1;
    }
    Some(out)
}

} // verus!
