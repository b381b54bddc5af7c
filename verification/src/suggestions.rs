//! Suggestions from ready answers: which quick responses a transcript calls up.

use vstd::prelude::*;
use crate::settings::{default_quick_responses, quick_response_ids, QuickResponse};
use crate::text::{chars_of, lowercase_of, same_text, to_lowercase};

verus! {

/// Whether `needle` stands in `hay` at position `i`.
pub open spec fn stands_at(hay: Seq<char>, i: int, needle: Seq<char>) -> bool {
    0 <= i && i + needle.len() <= hay.len() && hay.subrange(i, i + needle.len()) == needle
}

/// Whether `needle` stands somewhere in `hay`.
pub open spec fn is_substring(hay: Seq<char>, needle: Seq<char>) -> bool {
    exists|i: int| stands_at(hay, i, needle)
}

/// Whether `phrase` is heard in `transcription`, letters of either case being the same.
pub open spec fn phrase_heard(transcription: Seq<char>, phrase: Seq<char>) -> bool {
    is_substring(lowercase_of(transcription), lowercase_of(phrase))
}

/// The first phrase at or after `j` that is heard in `transcription`, or -1.
pub open spec fn first_heard(transcription: Seq<char>, phrases: Seq<String>, j: int) -> int
    decreases phrases.len() - j,
{
    if j < 0 || j >= phrases.len() {
        -1
    } else if phrase_heard(transcription, phrases[j]@) {
        j
    } else {
        first_heard(transcription, phrases, j + 1)
    }
}

/// A quick response that a transcript calls up.
#[derive(Clone, Copy, Debug, PartialEq, Eq, Structural)]
pub struct KeywordMatch {
    /// Which quick response.
    pub response_index: usize,
    /// Which of its phrases was heard first.
    pub phrase_index: usize,
}

/// The matches among the responses from `k` on: every enabled response of which a phrase
/// is heard, in order, each with the first such phrase.
pub open spec fn keyword_matches(transcription: Seq<char>, responses: Seq<QuickResponse>, k: int) -> Seq<
    KeywordMatch,
>
    decreases responses.len() - k,
{
    if k < 0 || k >= responses.len() {
        Seq::empty()
    } else {
        let j = first_heard(transcription, responses[k].trigger_phrases@, 0);
        if responses[k].enabled && j >= 0 {
            seq![KeywordMatch { response_index: k as usize, phrase_index: j as usize }] + keyword_matches(
                transcription,
                responses,
                k + 1,
            )
        } else {
            keyword_matches(transcription, responses, k + 1)
        }
    }
}

/// Whether `needle` stands somewhere in `hay`.
pub fn contains_text(hay: &[char], needle: &[char]) -> (r: bool)
    ensures
        r == is_substring(hay@, needle@),
{
    if needle.len() > hay.len() {
        assert forall|i: int| !stands_at(hay@, i, needle@) by {}
        return false;
    }
    let last = hay.len() - needle.len();
    let mut i: usize = 0;
    while i <= last
        invariant
            i <= last + 1,
            last == hay.len() - needle.len(),
            needle.len() <= hay.len(),
            forall|x: int| 0 <= x < i ==> !stands_at(hay@, x, needle@),
        decreases last + 1 - i,
    {
        let mut j: usize = 0;
        let mut same = true;
        while j < needle.len()
            invariant_except_break
                same,
            invariant
                j <= needle.len(),
                i + needle.len() <= hay.len(),
                forall|y: int| 0 <= y < j ==> hay@[i + y] == needle@[y],
            ensures
                same ==> forall|y: int| 0 <= y < needle.len() ==> hay@[i + y] == needle@[y],
                !same ==> j < needle.len() && hay@[i + j] != needle@[j as int],
            decreases needle.len() - j,
        {
            if hay[i + j] != needle[j] {
                same = false;
                break;
            }
            j += 1;
        }
        if same {
            assert(hay@.subrange(i as int, i + needle.len()) =~= needle@);
            assert(stands_at(hay@, i as int, needle@));
            return true;
        }
        assert(hay@.subrange(i as int, i + needle.len())[j as int] == hay@[i + j]);
        i += 1;
    }
    assert forall|x: int| !stands_at(hay@, x, needle@) by {}
    false
}

/// The quick responses that `transcription` calls up: every enabled one of which a
/// phrase stands in the transcript, letters of either case being the same.
pub fn match_quick_responses(transcription: &str, responses: &Vec<QuickResponse>) -> (matches: Vec<
    KeywordMatch,
>)
    ensures
        matches@ == keyword_matches(transcription@, responses@, 0),
{
    let lower = to_lowercase(transcription);
    let hay = chars_of(lower.as_str());
    let mut matches: Vec<KeywordMatch> = Vec::new();
    let n = responses.len();
    let mut k: usize = n;
    while k > 0
        invariant
            n == responses@.len(),
            k <= n,
            hay@ == lowercase_of(transcription@),
            matches@.len() <= n - k,
            reversed(matches@) == keyword_matches(transcription@, responses@, k as int),
        decreases k,
    {
        k -= 1;
        let r = &responses[k];
        let mut found: Option<usize> = None;
        if r.enabled {
            let mut j: usize = 0;
            while j < r.trigger_phrases.len()
                invariant_except_break
                    found is None,
                invariant
                    j <= r.trigger_phrases@.len(),
                    hay@ == lowercase_of(transcription@),
                    first_heard(transcription@, r.trigger_phrases@, 0) == first_heard(
                        transcription@,
                        r.trigger_phrases@,
                        j as int,
                    ),
                ensures
                    match found {
                        Some(x) => x == first_heard(transcription@, r.trigger_phrases@, 0),
                        None => first_heard(transcription@, r.trigger_phrases@, 0) == -1,
                    },
                decreases r.trigger_phrases@.len() - j,
            {
                let phrase = to_lowercase(r.trigger_phrases[j].as_str());
                let needle = chars_of(phrase.as_str());
                if contains_text(hay.as_slice(), needle.as_slice()) {
                    found = Some(j);
                    break;
                }
                j += 1;
            }
        }
        match found {
            Some(j) => {
                let ghost before = matches@;
                let m = KeywordMatch { response_index: k, phrase_index: j };
                matches.push(m);
                assert(reversed(matches@) =~= seq![m] + reversed(before)) by {
                    lemma_reversed_push(before, m);
                }
            },
            None => {},
        }
    }
    let out = reverse_matches(&matches);
    out
}

/// `s` in the opposite order.
pub open spec fn reversed(s: Seq<KeywordMatch>) -> Seq<KeywordMatch> {
    Seq::new(s.len(), |i: int| s[s.len() - 1 - i])
}

proof fn lemma_reversed_push(s: Seq<KeywordMatch>, m: KeywordMatch)
    ensures
        reversed(s.push(m)) == seq![m] + reversed(s),
{
    assert(reversed(s.push(m)) =~= seq![m] + reversed(s));
}

fn reverse_matches(v: &Vec<KeywordMatch>) -> (out: Vec<KeywordMatch>)
    ensures
        out@ == reversed(v@),
{
    let mut out: Vec<KeywordMatch> = Vec::new();
    let n = v.len();
    let mut i: usize = 0;
    while i < n
        invariant
            n == v@.len(),
            i <= n,
            out@.len() == i,
            forall|x: int| 0 <= x < i ==> out@[x] == v@[n - 1 - x],
        decreases n - i,
    {
        out.push(v[n - 1 - i]);
        i += 1;
    }
    assert(out@ =~= reversed(v@));
    out
}

/// The first `max_suggestions` of `matches`.
pub fn limit_matches(matches: Vec<KeywordMatch>, max_suggestions: usize) -> (out: Vec<KeywordMatch>)
    ensures
        out@ == (if matches@.len() > max_suggestions {
            matches@.take(max_suggestions as int)
        } else {
            matches@
        }),
{
    let mut out = matches;
    if out.len() > max_suggestions {
        out.truncate(max_suggestions);
    }
    out
}

/// The settings of the suggestion engine.
pub struct SuggestionsSettings {
    pub enabled: bool,
    pub quick_responses: Vec<QuickResponse>,
    pub rag_suggestions_enabled: bool,
    pub llm_suggestions_enabled: bool,
    pub max_suggestions: usize,
    pub auto_dismiss_on_copy: bool,
    /// For how many seconds a suggestion is shown; 0 means until it is dismissed.
    pub display_duration_seconds: u32,
}

/// The position of the first response at or after `k` with the id `id`, or -1.
pub open spec fn response_position(responses: Seq<QuickResponse>, id: Seq<char>, k: int) -> int
    decreases responses.len() - k,
{
    if k < 0 || k >= responses.len() {
        -1
    } else if responses[k].id@ == id {
        k
    } else {
        response_position(responses, id, k + 1)
    }
}

/// The positions, from `k` on, of the enabled responses; with a category, only of those
/// in it.
pub open spec fn enabled_positions(responses: Seq<QuickResponse>, category: Option<Seq<char>>, k: int) -> Seq<
    int,
>
    decreases responses.len() - k,
{
    if k < 0 || k >= responses.len() {
        Seq::empty()
    } else if responses[k].enabled && (category is None || responses[k].category@ == category->0) {
        seq![k] + enabled_positions(responses, category, k + 1)
    } else {
        enabled_positions(responses, category, k + 1)
    }
}

/// The ids of `existing` after the defaults from `k` on that are missing were added.
pub open spec fn merged_ids(existing: Seq<Seq<char>>, defaults: Seq<Seq<char>>, k: int) -> Seq<Seq<char>>
    decreases defaults.len() - k,
{
    if k < 0 || k >= defaults.len() {
        existing
    } else if existing.contains(defaults[k]) {
        merged_ids(existing, defaults, k + 1)
    } else {
        merged_ids(existing.push(defaults[k]), defaults, k + 1)
    }
}

fn position_of(responses: &Vec<QuickResponse>, id: &str) -> (r: Option<usize>)
    ensures
        match r {
            Some(k) => k == response_position(responses@, id@, 0) && k < responses@.len()
                && responses@[k as int].id@ == id@,
            None => response_position(responses@, id@, 0) == -1 && !quick_response_ids(
                responses@,
            ).contains(id@),
        },
{
    let mut k: usize = 0;
    while k < responses.len()
        invariant
            k <= responses.len(),
            response_position(responses@, id@, 0) == response_position(responses@, id@, k as int),
            forall|j: int| 0 <= j < k ==> responses@[j].id@ != id@,
        decreases responses.len() - k,
    {
        if same_text(responses[k].id.as_str(), id) {
            return Some(k);
        }
        k += 1;
    }
    None
}

impl SuggestionsSettings {
    /// The defaults: suggestions off, the built-in quick responses, at most three
    /// suggestions, shown until dismissed.
    pub fn default() -> (s: SuggestionsSettings)
        ensures
            !s.enabled,
            quick_response_ids(s.quick_responses@) == crate::settings::default_quick_response_ids(),
            s.rag_suggestions_enabled,
            s.llm_suggestions_enabled,
            s.max_suggestions == 3,
            s.auto_dismiss_on_copy,
            s.display_duration_seconds == 0,
    {
        SuggestionsSettings {
            enabled: false,
            quick_responses: default_quick_responses(),
            rag_suggestions_enabled: true,
            llm_suggestions_enabled: true,
            max_suggestions: 3,
            auto_dismiss_on_copy: true,
            display_duration_seconds: 0,
        }
    }

    /// The first quick response with the id `id`.
    pub fn get_quick_response(&self, id: &str) -> (r: Option<&QuickResponse>)
        ensures
            match r {
                Some(q) => response_position(self.quick_responses@, id@, 0) >= 0 && *q
                    == self.quick_responses@[response_position(self.quick_responses@, id@, 0)],
                None => response_position(self.quick_responses@, id@, 0) == -1,
            },
    {
        match position_of(&self.quick_responses, id) {
            Some(k) => Some(&self.quick_responses[k]),
            None => None,
        }
    }

    /// The enabled quick responses, in order.
    pub fn get_enabled_quick_responses(&self) -> (out: Vec<&QuickResponse>)
        ensures
            out@.len() == enabled_positions(self.quick_responses@, None, 0).len(),
            forall|i: int|
                0 <= i < out@.len() ==> *(#[trigger] out@[i])
                    == self.quick_responses@[enabled_positions(self.quick_responses@, None, 0)[i]],
    {
        self.enabled_in(None)
    }

    /// The enabled quick responses of the category `category`, in order.
    pub fn get_quick_responses_by_category(&self, category: &str) -> (out: Vec<&QuickResponse>)
        ensures
            out@.len() == enabled_positions(self.quick_responses@, Some(category@), 0).len(),
            forall|i: int|
                0 <= i < out@.len() ==> *(#[trigger] out@[i])
                    == self.quick_responses@[enabled_positions(
                    self.quick_responses@,
                    Some(category@),
                    0,
                )[i]],
    {
        self.enabled_in(Some(category))
    }

    fn enabled_in(&self, category: Option<&str>) -> (out: Vec<&QuickResponse>)
        ensures
            out@.len() == enabled_positions(
                self.quick_responses@,
                crate::template::opt_view(category),
                0,
            ).len(),
            forall|i: int|
                0 <= i < out@.len() ==> *(#[trigger] out@[i])
                    == self.quick_responses@[enabled_positions(
                    self.quick_responses@,
                    crate::template::opt_view(category),
                    0,
                )[i]],
    {
        let ghost cat = crate::template::opt_view(category);
        let ghost all = enabled_positions(self.quick_responses@, cat, 0);
        let mut out: Vec<&QuickResponse> = Vec::new();
        let ghost mut done: Seq<int> = Seq::empty();
        let mut k: usize = 0;
        while k < self.quick_responses.len()
            invariant
                k <= self.quick_responses@.len(),
                cat == crate::template::opt_view(category),
                all == enabled_positions(self.quick_responses@, cat, 0),
                done + enabled_positions(self.quick_responses@, cat, k as int) == all,
                out@.len() == done.len(),
                forall|i: int| 0 <= i < done.len() ==> 0 <= #[trigger] done[i] < self.quick_responses@.len(),
                forall|i: int| 0 <= i < out@.len() ==> *(#[trigger] out@[i]) == self.quick_responses@[done[i]],
            decreases self.quick_responses@.len() - k,
        {
            let q = &self.quick_responses[k];
            let in_category = match category {
                Some(c) => same_text(q.category.as_str(), c),
                None => true,
            };
            if q.enabled && in_category {
                out.push(q);
                proof {
                    let rest = enabled_positions(self.quick_responses@, cat, k + 1);
                    assert(done.push(k as int) + rest =~= done + (seq![k as int] + rest));
                    done = done.push(k as int);
                }
            }
            k += 1;
        }
        proof {
            assert(done + Seq::<int>::empty() =~= done);
        }
        out
    }
}

/// Adds the built-in quick responses that are missing, by their ids, behind the ones
/// that are there. Returns whether any was added.
pub fn ensure_suggestions_defaults(settings: &mut SuggestionsSettings) -> (changed: bool)
    ensures
        quick_response_ids(final(settings).quick_responses@) == merged_ids(
            quick_response_ids(old(settings).quick_responses@),
            crate::settings::default_quick_response_ids(),
            0,
        ),
        final(settings).quick_responses@.len() >= old(settings).quick_responses@.len(),
        final(settings).quick_responses@.take(old(settings).quick_responses@.len() as int) == old(
            settings,
        ).quick_responses@,
        changed == (final(settings).quick_responses@.len() > old(settings).quick_responses@.len()),
        final(settings).enabled == old(settings).enabled,
        final(settings).rag_suggestions_enabled == old(settings).rag_suggestions_enabled,
        final(settings).llm_suggestions_enabled == old(settings).llm_suggestions_enabled,
        final(settings).max_suggestions == old(settings).max_suggestions,
        final(settings).auto_dismiss_on_copy == old(settings).auto_dismiss_on_copy,
        final(settings).display_duration_seconds == old(settings).display_duration_seconds,
{
    let mut changed = false;
    let mut defaults = default_quick_responses();
    let ghost ids = crate::settings::default_quick_response_ids();
    let ghost start = old(settings).quick_responses@;
    let total = defaults.len();
    let mut k: usize = 0;
    assert(settings.quick_responses@.take(start.len() as int) =~= start);
    assert(ids.skip(0) =~= ids);
    while defaults.len() > 0
        invariant
            k + defaults@.len() == total,
            total == ids.len(),
            quick_response_ids(defaults@) == ids.skip(k as int),
            settings.quick_responses@.len() >= start.len(),
            settings.quick_responses@.take(start.len() as int) == start,
            changed == (settings.quick_responses@.len() > start.len()),
            merged_ids(quick_response_ids(settings.quick_responses@), ids, k as int) == merged_ids(
                quick_response_ids(start),
                ids,
                0,
            ),
            settings.enabled == old(settings).enabled,
            settings.rag_suggestions_enabled == old(settings).rag_suggestions_enabled,
            settings.llm_suggestions_enabled == old(settings).llm_suggestions_enabled,
            settings.max_suggestions == old(settings).max_suggestions,
            settings.auto_dismiss_on_copy == old(settings).auto_dismiss_on_copy,
            settings.display_duration_seconds == old(settings).display_duration_seconds,
        decreases defaults@.len(),
    {
        let ghost before = settings.quick_responses@;
        let ghost waiting = defaults@;
        let d = defaults.remove(0);
        proof {
            assert(d == waiting[0]);
            assert(quick_response_ids(waiting)[0] == d.id@);
            assert(ids.skip(k as int)[0] == ids[k as int]);
            assert(waiting.remove(0) =~= waiting.skip(1));
            assert forall|j: int| 0 <= j < defaults@.len() implies quick_response_ids(defaults@)[j]
                == ids.skip(k + 1)[j] by {
                assert(defaults@[j] == waiting[j + 1]);
                assert(quick_response_ids(waiting)[j + 1] == waiting[j + 1].id@);
                assert(ids.skip(k as int)[j + 1] == ids[k + j + 1]);
            }
            assert(quick_response_ids(defaults@) =~= ids.skip(k + 1));
        }
        if position_of(&settings.quick_responses, d.id.as_str()).is_none() {
            settings.quick_responses.push(d);
            changed = true;
            assert(quick_response_ids(settings.quick_responses@) =~= quick_response_ids(before).push(
                ids[k as int],
            ));
            assert(settings.quick_responses@.take(start.len() as int) =~= before.take(start.len() as int));
        } else {
            let p = position_of(&settings.quick_responses, d.id.as_str());
            assert(quick_response_ids(before)[p->0 as int] == ids[k as int]);
        }
        k += 1;
    }
    changed
}

/// The responses from `k` on without those with the id `id`.
pub open spec fn responses_without(responses: Seq<QuickResponse>, id: Seq<char>, k: int) -> Seq<
    QuickResponse,
>
    decreases responses.len() - k,
{
    if k < 0 || k >= responses.len() {
        Seq::empty()
    } else if responses[k].id@ == id {
        responses_without(responses, id, k + 1)
    } else {
        seq![responses[k]] + responses_without(responses, id, k + 1)
    }
}

/// Whether `r` failed with the words `message`.
pub open spec fn failed_with<T>(r: Result<T, String>, message: Seq<char>) -> bool {
    match r {
        Err(e) => e@ == message,
        Ok(_) => false,
    }
}

impl SuggestionsSettings {
    /// Adds a quick response behind the others. Fails, and changes nothing, if one
    /// with its id is there already.
    pub fn add_quick_response(&mut self, response: QuickResponse) -> (r: Result<(), String>)
        ensures
            response_position(old(self).quick_responses@, response.id@, 0) >= 0 ==> failed_with(
                r,
                "Quick response with this ID already exists"@,
            ) && final(self).quick_responses@ == old(self).quick_responses@,
            response_position(old(self).quick_responses@, response.id@, 0) == -1 ==> r is Ok && final(self).quick_responses@ == old(self).quick_responses@.push(response),
    {
        if position_of(&self.quick_responses, response.id.as_str()).is_some() {
            return Err("Quick response with this ID already exists".to_owned());
        }
        self.quick_responses.push(response);
        Ok(())
    }

    /// Puts `response` in the place of the first quick response with its id. Fails, and
    /// changes nothing, if there is none.
    pub fn update_quick_response(&mut self, response: QuickResponse) -> (r: Result<(), String>)
        ensures
            response_position(old(self).quick_responses@, response.id@, 0) == -1 ==> failed_with(
                r,
                "Quick response not found"@,
            ) && final(self).quick_responses@ == old(self).quick_responses@,
            response_position(old(self).quick_responses@, response.id@, 0) >= 0 ==> r is Ok && final(self).quick_responses@ == old(self).quick_responses@.update(
                response_position(old(self).quick_responses@, response.id@, 0),
                response,
            ),
    {
        match position_of(&self.quick_responses, response.id.as_str()) {
            Some(k) => {
                self.quick_responses.set(k, response);
                Ok(())
            },
            None => Err("Quick response not found".to_owned()),
        }
    }

    /// Deletes the quick responses with the id `id`. Fails if there is none.
    pub fn delete_quick_response(&mut self, id: &str) -> (r: Result<(), String>)
        ensures
            final(self).quick_responses@ == responses_without(old(self).quick_responses@, id@, 0),
            response_position(old(self).quick_responses@, id@, 0) == -1 ==> failed_with(
                r,
                "Quick response not found"@,
            ),
            response_position(old(self).quick_responses@, id@, 0) >= 0 ==> r is Ok,
    {
        let found = position_of(&self.quick_responses, id).is_some();
        let ghost before = self.quick_responses@;
        let mut kept: Vec<QuickResponse> = Vec::new();
        let mut rest: Vec<QuickResponse> = Vec::new();
        core::mem::swap(&mut rest, &mut self.quick_responses);
        let mut k: usize = 0;
        let total = rest.len();
        assert(before.skip(0) =~= before);
        assert(Seq::<QuickResponse>::empty() + responses_without(before, id@, 0) =~= responses_without(
            before,
            id@,
            0,
        ));
        while rest.len() > 0
            invariant
                k + rest@.len() == total,
                total == before.len(),
                rest@ == before.skip(k as int),
                kept@ + responses_without(before, id@, k as int) == responses_without(before, id@, 0),
            decreases rest@.len(),
        {
            let ghost waiting = rest@;
            let ghost done = kept@;
            let q = rest.remove(0);
            proof {
                assert(waiting.remove(0) =~= waiting.skip(1));
                assert(q == before[k as int]);
                assert(rest@ =~= before.skip(k + 1));
            }
            if !same_text(q.id.as_str(), id) {
                kept.push(q);
                proof {
                    let tail = responses_without(before, id@, k + 1);
                    assert(done.push(q) + tail =~= done + (seq![q] + tail));
                }
            }
            k += 1;
        }
        proof {
            assert(kept@ + Seq::<QuickResponse>::empty() =~= kept@);
        }
        self.quick_responses = kept;
        if found {
            Ok(())
        } else {
            Err("Quick response not found".to_owned())
        }
    }

    /// Enables the first quick response with the id `id` if it is disabled, and
    /// disables it if it is enabled. Returns whether it is enabled afterwards. Fails,
    /// and changes nothing, if there is none.
    pub fn toggle_quick_response(&mut self, id: &str) -> (r: Result<bool, String>)
        ensures
            final(self).quick_responses@.len() == old(self).quick_responses@.len(),
            response_position(old(self).quick_responses@, id@, 0) == -1 ==> failed_with(
                r,
                "Quick response not found"@,
            ) && final(self).quick_responses@ == old(self).quick_responses@,
            response_position(old(self).quick_responses@, id@, 0) >= 0 ==> r is Ok && ({
                let p = response_position(old(self).quick_responses@, id@, 0);
                let before = old(self).quick_responses@[p];
                let after = final(self).quick_responses@[p];
                &&& r->Ok_0 == !before.enabled
                &&& after.enabled == !before.enabled
                &&& after.id == before.id
                &&& after.name == before.name
                &&& after.trigger_phrases == before.trigger_phrases
                &&& after.category == before.category
                &&& after.response_template == before.response_template
                &&& after.created_at == before.created_at
                &&& forall|i: int|
                    0 <= i < old(self).quick_responses@.len() && i != p ==> #[trigger] final(self).quick_responses@[i] == old(self).quick_responses@[i]
            }),
    {
        match position_of(&self.quick_responses, id) {
            Some(k) => {
                let mut q = self.quick_responses.remove(k);
                q.enabled = !q.enabled;
                let enabled = q.enabled;
                self.quick_responses.insert(k, q);
                Ok(enabled)
            },
            None => Err("Quick response not found".to_owned()),
        }
    }
}

} // verus!
