//! The settings record and the control-plane handlers over it.
//!
//! The record carries the four scalar switches and the shortcut table.  In
//! the running engine the scalars live in shared atomic cells and the table
//! behind a reader/writer lock; persistence writes the record as a small
//! document next to the user's configuration.  Both of those shells sit
//! outside this crate; the record itself, its defaults and every mutation
//! the control plane performs are defined and verified here.

use vstd::prelude::*;
use vstd::string::StringSliceAdditionalSpecFns;
use crate::shortcuts::{default_shortcuts, ShortcutTable};
use crate::textproc::{lower_bytes, lower_seq};

verus! {

/// The persisted settings record.
pub struct AppSettings {
    pub auto_space: bool,
    pub silence_timeout: u64,
    pub allow_commands: bool,
    pub disable_punctuation: bool,
    pub shortcuts: ShortcutTable,
}

impl AppSettings {
    /// Whether the record is well formed: the table's keys are unique.
    pub open spec fn wf(&self) -> bool {
        self.shortcuts.wf()
    }
}

impl Default for AppSettings {
    /// The stock record: auto-space on, half a second of silence timeout,
    /// commands on, punctuation kept, and the default shortcut table.
    fn default() -> (s: AppSettings)
        ensures
            s.auto_space == true,
            s.silence_timeout == 500u64,
            s.allow_commands == true,
            s.disable_punctuation == false,
            s.shortcuts@ == Map::<Seq<u8>, Seq<u8>>::empty().insert(
                "delete".spec_bytes(),
                "[BACKSPACE]".spec_bytes(),
            ).insert("backspace".spec_bytes(), "[BACKSPACE]".spec_bytes()).insert(
                "delete that".spec_bytes(),
                "[DELETE_LINE]".spec_bytes(),
            ).insert("new line".spec_bytes(), "[ENTER]".spec_bytes()).insert(
                "enter".spec_bytes(),
                "[ENTER]".spec_bytes(),
            ).insert("space".spec_bytes(), " ".spec_bytes()),
            s.wf(),
    {
        AppSettings {
            auto_space: true,
            silence_timeout: 500,
            allow_commands: true,
            disable_punctuation: false,
            shortcuts: default_shortcuts(),
        }
    }
}

/// The in-memory settings store that the control commands mutate.  Loading
/// the record from disk and writing it back happen outside; each mutator
/// here returns with the record it expects to be persisted.
pub struct SettingsManager {
    pub settings: AppSettings,
}

impl SettingsManager {
    /// A manager over a loaded (or default) record.
    pub fn new(settings: AppSettings) -> (m: SettingsManager)
        requires
            settings.wf(),
        ensures
            m.settings == settings,
            m.settings.wf(),
    {
        SettingsManager { settings }
    }

    /// Switch the trailing auto-space on or off.
    pub fn set_auto_space(&mut self, state: bool)
        requires
            old(self).settings.wf(),
        ensures
            final(self).settings.auto_space == state,
            final(self).settings.silence_timeout == old(self).settings.silence_timeout,
            final(self).settings.allow_commands == old(self).settings.allow_commands,
            final(self).settings.disable_punctuation == old(self).settings.disable_punctuation,
            final(self).settings.shortcuts == old(self).settings.shortcuts,
            final(self).settings.wf(),
    {
        self.settings.auto_space = state;
    }

    /// Replace the silence timeout (the stop window) in milliseconds.
    pub fn set_silence_timeout(&mut self, ms: u64)
        requires
            old(self).settings.wf(),
        ensures
            final(self).settings.silence_timeout == ms,
            final(self).settings.auto_space == old(self).settings.auto_space,
            final(self).settings.allow_commands == old(self).settings.allow_commands,
            final(self).settings.disable_punctuation == old(self).settings.disable_punctuation,
            final(self).settings.shortcuts == old(self).settings.shortcuts,
            final(self).settings.wf(),
    {
        self.settings.silence_timeout = ms;
    }

    /// Switch command substitution on or off.
    pub fn set_allow_commands(&mut self, state: bool)
        requires
            old(self).settings.wf(),
        ensures
            final(self).settings.allow_commands == state,
            final(self).settings.auto_space == old(self).settings.auto_space,
            final(self).settings.silence_timeout == old(self).settings.silence_timeout,
            final(self).settings.disable_punctuation == old(self).settings.disable_punctuation,
            final(self).settings.shortcuts == old(self).settings.shortcuts,
            final(self).settings.wf(),
    {
        self.settings.allow_commands = state;
    }

    /// Switch punctuation stripping on or off.
    pub fn set_disable_punctuation(&mut self, state: bool)
        requires
            old(self).settings.wf(),
        ensures
            final(self).settings.disable_punctuation == state,
            final(self).settings.auto_space == old(self).settings.auto_space,
            final(self).settings.silence_timeout == old(self).settings.silence_timeout,
            final(self).settings.allow_commands == old(self).settings.allow_commands,
            final(self).settings.shortcuts == old(self).settings.shortcuts,
            final(self).settings.wf(),
    {
        self.settings.disable_punctuation = state;
    }

    /// Insert or replace a shortcut; the key is stored lowercased.
    pub fn upsert_shortcut(&mut self, key: Vec<u8>, value: Vec<u8>)
        requires
            old(self).settings.wf(),
        ensures
            final(self).settings.shortcuts@ == old(self).settings.shortcuts@.insert(
                lower_seq(key@),
                value@,
            ),
            final(self).settings.auto_space == old(self).settings.auto_space,
            final(self).settings.silence_timeout == old(self).settings.silence_timeout,
            final(self).settings.allow_commands == old(self).settings.allow_commands,
            final(self).settings.disable_punctuation == old(self).settings.disable_punctuation,
            final(self).settings.wf(),
    {
        let lowered: Vec<u8> = lower_bytes(&key);
        self.settings.shortcuts.upsert(lowered, value);
    }

    /// Remove a shortcut; the key is matched lowercased.
    pub fn delete_shortcut(&mut self, key: Vec<u8>)
        requires
            old(self).settings.wf(),
        ensures
            final(self).settings.shortcuts@ == old(self).settings.shortcuts@.remove(
                lower_seq(key@),
            ),
            final(self).settings.auto_space == old(self).settings.auto_space,
            final(self).settings.silence_timeout == old(self).settings.silence_timeout,
            final(self).settings.allow_commands == old(self).settings.allow_commands,
            final(self).settings.disable_punctuation == old(self).settings.disable_punctuation,
            final(self).settings.wf(),
    {
        let lowered: Vec<u8> = lower_bytes(&key);
        self.settings.shortcuts.remove(&lowered);
    }

    /// The current record.
    pub fn get_settings(&self) -> (s: &AppSettings)
        ensures
            s == self.settings,
    {
        &self.settings
    }
}

} // verus!
