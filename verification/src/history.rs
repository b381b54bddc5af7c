//! The history of transcriptions and the policy that says which entries stay.

use vstd::prelude::*;
use crate::settings::RecordingRetentionPeriod;
use crate::text::{copy_opt_string, copy_string, opt_chars, push_signed_decimal, push_text, signed_digits_of};

verus! {

/// One transcription with the recording it came from.
#[derive(Clone, Debug)]
pub struct HistoryEntry {
    pub id: i64,
    /// The name of the audio file.
    pub file_name: String,
    /// Seconds since the epoch.
    pub timestamp: i64,
    /// Whether the user marked the entry to be kept.
    pub saved: bool,
    pub title: String,
    pub transcription_text: String,
    pub post_processed_text: Option<String>,
    pub post_process_prompt: Option<String>,
}

/// An entry as plain values.
pub struct EntryView {
    pub id: i64,
    pub file_name: Seq<char>,
    pub timestamp: i64,
    pub saved: bool,
    pub title: Seq<char>,
    pub transcription_text: Seq<char>,
    pub post_processed_text: Option<Seq<char>>,
    pub post_process_prompt: Option<Seq<char>>,
}

impl View for HistoryEntry {
    type V = EntryView;

    open spec fn view(&self) -> EntryView {
        EntryView {
            id: self.id,
            file_name: self.file_name@,
            timestamp: self.timestamp,
            saved: self.saved,
            title: self.title@,
            transcription_text: self.transcription_text@,
            post_processed_text: opt_chars(self.post_processed_text),
            post_process_prompt: opt_chars(self.post_process_prompt),
        }
    }
}

/// The entries of `v` as plain values.
pub open spec fn entry_views(v: Seq<HistoryEntry>) -> Seq<EntryView> {
    v.map_values(|e: HistoryEntry| e@)
}

/// A copy of `entry`.
pub fn copy_entry(entry: &HistoryEntry) -> (r: HistoryEntry)
    ensures
        r@ == entry@,
{
    HistoryEntry {
        id: entry.id,
        file_name: copy_string(&entry.file_name),
        timestamp: entry.timestamp,
        saved: entry.saved,
        title: copy_string(&entry.title),
        transcription_text: copy_string(&entry.transcription_text),
        post_processed_text: copy_opt_string(&entry.post_processed_text),
        post_process_prompt: copy_opt_string(&entry.post_process_prompt),
    }
}

/// How many entries of `entries` are not saved.
pub open spec fn count_unsaved(entries: Seq<EntryView>) -> nat
    decreases entries.len(),
{
    if entries.len() == 0 {
        0
    } else if entries[0].saved {
        count_unsaved(entries.skip(1))
    } else {
        1 + count_unsaved(entries.skip(1))
    }
}

/// The saved entries of `entries`, in order.
pub open spec fn saved_of(entries: Seq<EntryView>) -> Seq<EntryView>
    decreases entries.len(),
{
    if entries.len() == 0 {
        Seq::empty()
    } else if entries[0].saved {
        seq![entries[0]] + saved_of(entries.skip(1))
    } else {
        saved_of(entries.skip(1))
    }
}

/// `entries`, oldest first, without its `d` oldest unsaved entries.
pub open spec fn without_oldest_unsaved(entries: Seq<EntryView>, d: nat) -> Seq<EntryView>
    decreases entries.len(),
{
    if entries.len() == 0 {
        Seq::empty()
    } else if !entries[0].saved && d > 0 {
        without_oldest_unsaved(entries.skip(1), (d - 1) as nat)
    } else {
        seq![entries[0]] + without_oldest_unsaved(entries.skip(1), d)
    }
}

/// How many unsaved entries are over the limit.
pub open spec fn surplus(entries: Seq<EntryView>, limit: nat) -> nat {
    if count_unsaved(entries) > limit {
        (count_unsaved(entries) - limit) as nat
    } else {
        0
    }
}

/// `entries` without the unsaved entries older than `cutoff`.
pub open spec fn without_older(entries: Seq<EntryView>, cutoff: int) -> Seq<EntryView>
    decreases entries.len(),
{
    if entries.len() == 0 {
        Seq::empty()
    } else if !entries[0].saved && entries[0].timestamp < cutoff {
        without_older(entries.skip(1), cutoff)
    } else {
        seq![entries[0]] + without_older(entries.skip(1), cutoff)
    }
}

/// For how many seconds a period keeps unsaved entries; `None` for the periods that do
/// not go by age.
pub open spec fn retention_seconds(period: RecordingRetentionPeriod) -> Option<int> {
    match period {
        RecordingRetentionPeriod::Days3 => Some(3 * 86400int),
        RecordingRetentionPeriod::Weeks2 => Some(14 * 86400int),
        RecordingRetentionPeriod::Months3 => Some(90 * 86400int),
        _ => None,
    }
}

/// The entries that stay under a retention policy, of entries given oldest first.
/// `Never` deletes nothing. `PreserveLimit` deletes the oldest unsaved entries until at
/// most `limit` unsaved ones are left. The other periods delete the unsaved entries
/// older than the period, counted back from `now`. A saved entry always stays.
pub open spec fn retained(
    entries: Seq<EntryView>,
    period: RecordingRetentionPeriod,
    limit: nat,
    now: int,
) -> Seq<EntryView> {
    match period {
        RecordingRetentionPeriod::Never => entries,
        RecordingRetentionPeriod::PreserveLimit => without_oldest_unsaved(entries, surplus(entries, limit)),
        _ => without_older(entries, now - retention_seconds(period)->0),
    }
}

/// Dropping unsaved entries leaves the saved ones as they are, and leaves as many
/// unsaved ones as were not dropped.
pub proof fn lemma_without_oldest_unsaved(entries: Seq<EntryView>, d: nat)
    ensures
        saved_of(without_oldest_unsaved(entries, d)) == saved_of(entries),
        count_unsaved(without_oldest_unsaved(entries, d)) == (if d >= count_unsaved(entries) {
            0
        } else {
            count_unsaved(entries) - d
        }),
    decreases entries.len(),
{
    if entries.len() > 0 {
        let rest = entries.skip(1);
        if !entries[0].saved && d > 0 {
            lemma_without_oldest_unsaved(rest, (d - 1) as nat);
        } else {
            lemma_without_oldest_unsaved(rest, d);
            let out = without_oldest_unsaved(entries, d);
            assert(out[0] == entries[0]);
            assert(out.skip(1) =~= without_oldest_unsaved(rest, d));
        }
    }
}

/// Deleting by age leaves the saved entries as they are.
pub proof fn lemma_without_older(entries: Seq<EntryView>, cutoff: int)
    ensures
        saved_of(without_older(entries, cutoff)) == saved_of(entries),
        count_unsaved(without_older(entries, cutoff)) <= count_unsaved(entries),
    decreases entries.len(),
{
    if entries.len() > 0 {
        let rest = entries.skip(1);
        lemma_without_older(rest, cutoff);
        if !(!entries[0].saved && entries[0].timestamp < cutoff) {
            let out = without_older(entries, cutoff);
            assert(out[0] == entries[0]);
            assert(out.skip(1) =~= without_older(rest, cutoff));
        }
    }
}

/// Under `PreserveLimit` at most `limit` unsaved entries stay, and under every policy
/// the saved entries stay, each of them and in their order.
pub proof fn lemma_retention(entries: Seq<EntryView>, period: RecordingRetentionPeriod, limit: nat, now: int)
    ensures
        saved_of(retained(entries, period, limit, now)) == saved_of(entries),
        period == RecordingRetentionPeriod::PreserveLimit ==> count_unsaved(
            retained(entries, period, limit, now),
        ) <= limit,
        count_unsaved(retained(entries, period, limit, now)) <= count_unsaved(entries),
{
    lemma_without_oldest_unsaved(entries, surplus(entries, limit));
    if retention_seconds(period) is Some {
        lemma_without_older(entries, now - retention_seconds(period)->0);
    }
}

/// An unsaved entry added at the end leaves the saved entries as they are.
pub proof fn lemma_saved_of_push(entries: Seq<EntryView>, e: EntryView)
    requires
        !e.saved,
    ensures
        saved_of(entries.push(e)) == saved_of(entries),
    decreases entries.len(),
{
    let all = entries.push(e);
    if entries.len() == 0 {
        assert(all.skip(1) =~= Seq::<EntryView>::empty());
        assert(all[0] == e);
        assert(saved_of(all.skip(1)) =~= Seq::<EntryView>::empty());
    } else {
        lemma_saved_of_push(entries.skip(1), e);
        assert(all.skip(1) =~= entries.skip(1).push(e));
        assert(all[0] == entries[0]);
    }
}

fn count_unsaved_entries(entries: &Vec<HistoryEntry>) -> (n: usize)
    ensures
        n == count_unsaved(entry_views(entries@)),
{
    let ghost views = entry_views(entries@);
    let mut n: usize = 0;
    let mut i: usize = entries.len();
    assert(views.skip(entries.len() as int) =~= Seq::<EntryView>::empty());
    while i > 0
        invariant
            i <= entries.len(),
            views == entry_views(entries@),
            n == count_unsaved(views.skip(i as int)),
            n <= entries.len() - i,
        decreases i,
    {
        i -= 1;
        proof {
            let tail = views.skip(i as int);
            assert(tail.skip(1) =~= views.skip(i + 1));
            assert(tail[0] == entries@[i as int]@);
        }
        if !entries[i].saved {
            n += 1;
        }
    }
    assert(views.skip(0) =~= views);
    n
}

/// The entries that stay under a retention policy, of entries given oldest first.
pub fn apply_retention(
    entries: &Vec<HistoryEntry>,
    period: RecordingRetentionPeriod,
    limit: usize,
    now: i64,
) -> (kept: Vec<HistoryEntry>)
    ensures
        entry_views(kept@) == retained(entry_views(entries@), period, limit as nat, now as int),
{
    let ghost views = entry_views(entries@);
    let seconds: i64 = match period {
        RecordingRetentionPeriod::Never => 0,
        RecordingRetentionPeriod::PreserveLimit => 0,
        RecordingRetentionPeriod::Days3 => 3 * 86400,
        RecordingRetentionPeriod::Weeks2 => 14 * 86400,
        RecordingRetentionPeriod::Months3 => 90 * 86400,
    };
    let by_count = match period {
        RecordingRetentionPeriod::PreserveLimit => true,
        _ => false,
    };
    let by_age = match period {
        RecordingRetentionPeriod::Never => false,
        RecordingRetentionPeriod::PreserveLimit => false,
        _ => true,
    };
    let unsaved = if by_count {
        count_unsaved_entries(entries)
    } else {
        0
    };
    let mut to_drop: usize = if unsaved > limit {
        unsaved - limit
    } else {
        0
    };
    let mut kept: Vec<HistoryEntry> = Vec::new();
    let mut i: usize = 0;
    assert(views.skip(0) =~= views);
    while i < entries.len()
        invariant
            i <= entries.len(),
            views == entry_views(entries@),
            by_count == (period == RecordingRetentionPeriod::PreserveLimit),
            by_age == (retention_seconds(period) is Some),
            by_age ==> seconds == retention_seconds(period)->0,
            0 <= seconds <= 90 * 86400,
            by_count ==> entry_views(kept@) + without_oldest_unsaved(views.skip(i as int), to_drop as nat)
                == retained(views, period, limit as nat, now as int),
            by_age ==> entry_views(kept@) + without_older(views.skip(i as int), now - seconds) == retained(
                views,
                period,
                limit as nat,
                now as int,
            ),
            !by_count && !by_age ==> entry_views(kept@) + views.skip(i as int) == views,
        decreases entries.len() - i,
    {
        let e = &entries[i];
        let ghost tail = views.skip(i as int);
        let ghost before = entry_views(kept@);
        proof {
            assert(tail.skip(1) =~= views.skip(i + 1));
            assert(tail[0] == e@);
        }
        let drop = if by_count {
            !e.saved && to_drop > 0
        } else if by_age {
            !e.saved && (e.timestamp as i128) < (now as i128) - (seconds as i128)
        } else {
            false
        };
        if drop {
            if by_count {
                to_drop -= 1;
            }
        } else {
            kept.push(copy_entry(e));
            proof {
                assert(entry_views(kept@) =~= before.push(e@));
                let rest_c = without_oldest_unsaved(tail.skip(1), to_drop as nat);
                let rest_a = without_older(tail.skip(1), now - seconds);
                assert(before.push(e@) + rest_c =~= before + (seq![e@] + rest_c));
                assert(before.push(e@) + rest_a =~= before + (seq![e@] + rest_a));
                assert(before.push(e@) + tail.skip(1) =~= before + tail);
            }
        }
        i += 1;
    }
    proof {
        assert(views.skip(entries.len() as int) =~= Seq::<EntryView>::empty());
        assert(entry_views(kept@) + Seq::<EntryView>::empty() =~= entry_views(kept@));
    }
    kept
}

/// The id after `id`; the largest id is followed by itself.
pub open spec fn following_id(id: i64) -> i64 {
    if id < i64::MAX {
        (id + 1) as i64
    } else {
        id
    }
}

/// The name of the audio file of a recording made at `timestamp`.
pub open spec fn file_name_of(timestamp: i64) -> Seq<char> {
    "handy-"@ + signed_digits_of(timestamp as int) + ".wav"@
}

/// The history, oldest entry first.
pub struct HistoryManager {
    entries: Vec<HistoryEntry>,
    next_id: i64,
}

impl View for HistoryManager {
    type V = Seq<EntryView>;

    closed spec fn view(&self) -> Seq<EntryView> {
        entry_views(self.entries@)
    }
}

impl HistoryManager {
    /// The id that the next entry gets.
    pub closed spec fn next_id(&self) -> i64 {
        self.next_id
    }

    /// An empty history.
    pub fn new() -> (h: HistoryManager)
        ensures
            h@ == Seq::<EntryView>::empty(),
            h.next_id() == 1,
    {
        let h = HistoryManager { entries: Vec::new(), next_id: 1 };
        assert(h@ =~= Seq::<EntryView>::empty());
        h
    }

    /// The id that the next entry gets.
    pub fn next_entry_id(&self) -> (id: i64)
        ensures
            id == self.next_id(),
    {
        self.next_id
    }

    /// A copy of the entries, oldest first.
    pub fn get_history_entries(&self) -> (out: Vec<HistoryEntry>)
        ensures
            entry_views(out@) == self@,
    {
        apply_retention(&self.entries, RecordingRetentionPeriod::Never, 0, 0)
    }

    /// Adds an unsaved entry for a recording made at `timestamp` and then applies the
    /// retention policy. Returns the entry as it was added.
    pub fn save_transcription(
        &mut self,
        timestamp: i64,
        title: String,
        transcription_text: String,
        post_processed_text: Option<String>,
        post_process_prompt: Option<String>,
        period: RecordingRetentionPeriod,
        limit: usize,
    ) -> (added: HistoryEntry)
        ensures
            added@ == (EntryView {
                id: old(self).next_id(),
                file_name: file_name_of(timestamp),
                timestamp,
                saved: false,
                title: title@,
                transcription_text: transcription_text@,
                post_processed_text: opt_chars(post_processed_text),
                post_process_prompt: opt_chars(post_process_prompt),
            }),
            final(self)@ == retained(old(self)@.push(added@), period, limit as nat, timestamp as int),
            period == RecordingRetentionPeriod::PreserveLimit ==> count_unsaved(final(self)@) <= limit,
            saved_of(final(self)@) == saved_of(old(self)@),
            final(self).next_id() == following_id(old(self).next_id()),
    {
        let mut file_name = "handy-".to_owned();
        push_signed_decimal(&mut file_name, timestamp);
        push_text(&mut file_name, ".wav");
        let entry = HistoryEntry {
            id: self.next_id,
            file_name,
            timestamp,
            saved: false,
            title,
            transcription_text,
            post_processed_text,
            post_process_prompt,
        };
        let added = copy_entry(&entry);
        if self.next_id < i64::MAX {
            self.next_id = self.next_id + 1;
        }
        self.entries.push(entry);
        assert(entry_views(self.entries@) =~= old(self)@.push(added@));
        proof {
            lemma_retention(old(self)@.push(added@), period, limit as nat, timestamp as int);
            lemma_saved_of_push(old(self)@, added@);
        }
        self.entries = apply_retention(&self.entries, period, limit, timestamp);
        added
    }

    /// Applies the retention policy at the time `now`.
    pub fn cleanup_old_entries(&mut self, period: RecordingRetentionPeriod, limit: usize, now: i64)
        ensures
            final(self)@ == retained(old(self)@, period, limit as nat, now as int),
            period == RecordingRetentionPeriod::PreserveLimit ==> count_unsaved(final(self)@) <= limit,
            saved_of(final(self)@) == saved_of(old(self)@),
            final(self).next_id() == old(self).next_id(),
    {
        proof {
            lemma_retention(old(self)@, period, limit as nat, now as int);
        }
        self.entries = apply_retention(&self.entries, period, limit, now);
    }

    /// Turns the saved mark of the entry `id` around. Returns whether there is such an
    /// entry.
    pub fn toggle_saved_status(&mut self, id: i64) -> (found: bool)
        ensures
            final(self).next_id() == old(self).next_id(),
            final(self)@.len() == old(self)@.len(),
            found == exists|i: int| 0 <= i < old(self)@.len() && old(self)@[i].id == id,
            forall|i: int|
                0 <= i < old(self)@.len() ==> #[trigger] final(self)@[i] == (if old(self)@[i].id == id
                    && first_with_id(old(self)@, id) == i {
                    EntryView { saved: !old(self)@[i].saved, ..old(self)@[i] }
                } else {
                    old(self)@[i]
                }),
    {
        let mut i: usize = 0;
        assert(old(self)@.skip(0) =~= old(self)@);
        while i < self.entries.len()
            invariant
                i <= self.entries.len(),
                self.entries == old(self).entries,
                self.next_id == old(self).next_id,
                forall|j: int| 0 <= j < i ==> old(self)@[j].id != id,
                first_with_id(old(self)@, id) == i + first_with_id(old(self)@.skip(i as int), id),
            decreases self.entries.len() - i,
        {
            proof {
                let tail = old(self)@.skip(i as int);
                assert(tail[0] == old(self)@[i as int]);
                assert(tail.skip(1) =~= old(self)@.skip(i + 1));
            }
            if self.entries[i].id == id {
                let mut e = copy_entry(&self.entries[i]);
                e.saved = !e.saved;
                self.entries.set(i, e);
                return true;
            }
            i += 1;
        }
        false
    }
}

/// The position of the first entry with the id `id`; the number of entries if there is
/// none.
pub open spec fn first_with_id(entries: Seq<EntryView>, id: i64) -> int
    decreases entries.len(),
{
    if entries.len() == 0 {
        0
    } else if entries[0].id == id {
        0
    } else {
        1 + first_with_id(entries.skip(1), id)
    }
}

} // verus!
