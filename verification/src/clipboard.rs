//! Clipboard ingress state machine. The host polls the system clipboard on
//! a fixed cadence and hands each snapshot to the watcher, which decides
//! whether to forward it: only while enabled, only when the trimmed text is
//! non-empty, only when the rewritten text is non-empty, and only when the
//! rewritten text differs from the last value forwarded (the dedupe). The
//! dedupe state survives disabling and re-enabling the watcher.

use vstd::prelude::*;

verus! {

use crate::replace::apply_rules_spec;
use crate::replace::ReplacementEngine;
use crate::replace::RuleModel;
use crate::text::trim_spec;
use crate::text::trim_str;
use vstd::string::StrSliceExecFns;

/// Poll cadence while the watcher is disabled, in milliseconds.
pub const IDLE_POLL_MS: u64 = 500;

/// Poll cadence around an enabled poll cycle, in milliseconds.
pub const ACTIVE_POLL_MS: u64 = 1500;

/// What the watcher forwards for one clipboard snapshot, given its enabled
/// flag, its last forwarded value, and the installed rules. `None` stands
/// for a failed or non-text clipboard read.
pub open spec fn tick_emit_spec(
    enabled: bool,
    last: Seq<char>,
    rules: Seq<RuleModel>,
    snapshot: Option<Seq<char>>,
) -> Option<Seq<char>> {
    if !enabled {
        Option::None
    } else {
        match snapshot {
            Option::None => Option::None,
            Option::Some(raw) => {
                let text = trim_spec(raw);
                if text.len() == 0 {
                    Option::None
                } else {
                    let processed = apply_rules_spec(rules, text);
                    if processed.len() == 0 || processed == last {
                        Option::None
                    } else {
                        Option::Some(processed)
                    }
                }
            },
        }
    }
}

/// Of two consecutive identical clipboard snapshots, at most the first is
/// forwarded: once a snapshot's rewritten text has been forwarded and
/// recorded as the last value, the same snapshot forwards nothing.
pub proof fn lemma_clipboard_dedupe(
    enabled: bool,
    last: Seq<char>,
    rules: Seq<RuleModel>,
    snapshot: Option<Seq<char>>,
    emitted: Seq<char>,
)
    requires
        tick_emit_spec(enabled, last, rules, snapshot) == Option::Some(emitted),
    ensures
        tick_emit_spec(enabled, emitted, rules, snapshot) is None,
{
}

/// The clipboard watcher: its enable toggle and the last forwarded value.
pub struct ClipboardWatcher {
    enabled: bool,
    last: String,
}

impl ClipboardWatcher {
    /// Whether the watcher forwards snapshots.
    pub closed spec fn is_enabled(&self) -> bool {
        self.enabled
    }

    /// The last value forwarded to the outbound notification.
    pub closed spec fn last_model(&self) -> Seq<char> {
        self.last@
    }

    /// A fresh watcher: disabled, with nothing forwarded yet.
    pub fn new() -> (r: ClipboardWatcher)
        ensures
            !r.is_enabled(),
            r.last_model() == Seq::<char>::empty(),
    {
        ClipboardWatcher { enabled: false, last: String::new() }
    }

    /// Whether the watcher currently forwards snapshots; while it does not,
    /// the host need not read the clipboard at all.
    pub fn is_watching(&self) -> (r: bool)
        ensures
            r == self.is_enabled(),
    {
        self.enabled
    }

    /// Turns the watcher on or off. The last forwarded value is kept, so an
    /// unchanged clipboard is not re-forwarded after re-enabling.
    pub fn set_clipboard_watch(&mut self, enabled: bool)
        ensures
            final(self).is_enabled() == enabled,
            final(self).last_model() == old(self).last_model(),
    {
        self.enabled = enabled;
    }

    /// How long the host should sleep before the next poll.
    pub fn poll_delay_ms(&self) -> (r: u64)
        ensures
            r == if self.is_enabled() {
                ACTIVE_POLL_MS
            } else {
                IDLE_POLL_MS
            },
    {
        if self.enabled {
            ACTIVE_POLL_MS
        } else {
            IDLE_POLL_MS
        }
    }

    /// Handles one clipboard snapshot: returns the rewritten text to forward
    /// when the watcher decides to, and records it as the last forwarded
    /// value; a read failure or a suppressed snapshot changes nothing.
    pub fn handle_snapshot(
        &mut self,
        engine: &ReplacementEngine,
        snapshot: Option<String>,
    ) -> (emit: Option<String>)
        ensures
            emit.deep_view() == tick_emit_spec(
                old(self).is_enabled(),
                old(self).last_model(),
                engine.models(),
                snapshot.deep_view(),
            ),
            final(self).is_enabled() == old(self).is_enabled(),
            final(self).last_model() == match emit {
                Option::Some(p) => p@,
                Option::None => old(self).last_model(),
            },
    {
        if !self.enabled {
            return Option::None;
        }
        let raw = match snapshot {
            Option::Some(raw) => raw,
            Option::None => {
                return Option::None;
            },
        };
        let text = trim_str(raw.as_str());
        if text.as_str().is_empty() {
            return Option::None;
        }
        let processed = engine.apply_text_replacements(text.as_str());
        if processed.as_str().is_empty() || processed == self.last {
            return Option::None;
        }
        self.last = processed.clone();
        Option::Some(processed)
    }
}

} // verus!
