//! Bounded session history: an order-preserving ledger of
//! (original, translation) pairs. The log never exceeds `MAX_HISTORY`
//! entries; overflow evicts from the oldest end, and entries with a blank
//! original or translation are never recorded.

use vstd::prelude::*;

verus! {

use crate::text::is_blank;

/// The fixed capacity of the history log.
pub const MAX_HISTORY: usize = 1000;

/// One recorded pair of an original text and its translation.
pub struct HistoryEntry {
    pub original: String,
    pub translation: String,
}

/// The mathematical content of a history entry.
pub struct HistoryEntryModel {
    pub original: Seq<char>,
    pub translation: Seq<char>,
}

impl HistoryEntry {
    /// The entry's content as character sequences.
    pub open spec fn model(&self) -> HistoryEntryModel {
        HistoryEntryModel { original: self.original@, translation: self.translation@ }
    }
}

/// The models of a list of entries, in order.
pub open spec fn entry_models(entries: Seq<HistoryEntry>) -> Seq<HistoryEntryModel> {
    entries.map_values(|e: HistoryEntry| e.model())
}

/// The log after recording `entry` into `log`: appended at the newest end,
/// then trimmed from the oldest end back to capacity.
pub open spec fn history_record_spec(
    log: Seq<HistoryEntryModel>,
    entry: HistoryEntryModel,
) -> Seq<HistoryEntryModel> {
    let appended = log.push(entry);
    if appended.len() > MAX_HISTORY as int {
        appended.skip(appended.len() - MAX_HISTORY as int)
    } else {
        appended
    }
}

/// Recording keeps the log within capacity: the new entry is always the
/// newest, a log below capacity simply grows, and a full log evicts exactly
/// its oldest entry.
pub proof fn lemma_history_bounded(log: Seq<HistoryEntryModel>, entry: HistoryEntryModel)
    requires
        log.len() <= MAX_HISTORY as int,
    ensures
        history_record_spec(log, entry).len() <= MAX_HISTORY as int,
        history_record_spec(log, entry).last() == entry,
        log.len() < MAX_HISTORY as int ==> history_record_spec(log, entry) == log.push(entry),
        log.len() == MAX_HISTORY as int ==> history_record_spec(log, entry) =~= log.push(
            entry,
        ).skip(1),
{
}

/// The in-memory history log, owning its entries exclusively.
pub struct HistoryLog {
    entries: Vec<HistoryEntry>,
}

impl HistoryLog {
    /// The recorded entries, oldest first.
    pub closed spec fn model(&self) -> Seq<HistoryEntryModel> {
        entry_models(self.entries@)
    }

    /// The log never holds more than `MAX_HISTORY` entries.
    pub closed spec fn wf(&self) -> bool {
        self.entries@.len() <= MAX_HISTORY as int
    }

    /// An empty log.
    pub fn new() -> (r: HistoryLog)
        ensures
            r.wf(),
            r.model().len() == 0,
    {
        HistoryLog { entries: Vec::new() }
    }

    /// Appends a pair unless either field is blank; on overflow evicts the
    /// oldest entry. Returns whether the log changed, so the caller can
    /// notify listeners that history was updated.
    pub fn record_translation_history(
        &mut self,
        original: String,
        translation: String,
    ) -> (changed: bool)
        requires
            old(self).wf(),
        ensures
            final(self).wf(),
            changed == (!is_blank(original@) && !is_blank(translation@)),
            changed ==> final(self).model() == history_record_spec(
                old(self).model(),
                HistoryEntryModel { original: original@, translation: translation@ },
            ),
            !changed ==> final(self).model() == old(self).model(),
    {
        if crate::text::str_is_blank(original.as_str()) || crate::text::str_is_blank(
            translation.as_str(),
        ) {
            return false;
        }
        let ghost prev = self.entries@;
        let entry = HistoryEntry { original, translation };
        let ghost entry_model = entry.model();
        self.entries.push(entry);
        proof {
            assert(entry_models(self.entries@) =~= entry_models(prev).push(entry_model));
        }
        if self.entries.len() > MAX_HISTORY {
            let ghost before = self.entries@;
            self.entries.remove(0);
            proof {
                assert(entry_models(self.entries@) =~= entry_models(before).skip(1));
                assert(entry_models(before).skip(1) =~= entry_models(prev).push(entry_model).skip(
                    entry_models(prev).push(entry_model).len() - MAX_HISTORY as int,
                ));
            }
        }
        true
    }

    /// A copy of the current entries, oldest first; the caller cannot mutate
    /// the log through it.
    pub fn get_translation_history(&self) -> (r: Vec<HistoryEntry>)
        ensures
            entry_models(r@) == self.model(),
    {
        let mut out: Vec<HistoryEntry> = Vec::new();
        let n = self.entries.len();
        let mut i: usize = 0;
        while i < n
            invariant
                n == self.entries@.len(),
                i <= n,
                out@.len() == i as int,
                forall|j: int| 0 <= j < i ==> #[trigger] out@[j].model() == self.entries@[j].model(),
            decreases n - i,
        {
            let e = &self.entries[i];
            out.push(HistoryEntry { original: e.original.clone(), translation: e.translation.clone() });
            i += 1;
        }
        proof {
            assert(entry_models(out@) =~= entry_models(self.entries@));
        }
        out
    }
}

} // verus!
