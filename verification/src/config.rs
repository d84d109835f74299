//! Local preferences: the self-declared username (used for flag and
//! writeup submissions and for finding your leaderboard position), the
//! machines marked as completed, and the interface language. VulnyX has no
//! accounts, so nothing sensitive is kept. The host reads and writes the
//! file; this module decides what is read from it and what is written.
use vstd::prelude::*;

use crate::i18n::Lang;
use crate::text::{owned, trim, trimmed};

verus! {

/// The preferences file's contents.
#[derive(Debug, Clone)]
pub struct ConfigFile {
    pub username: String,
    /// Machine slugs marked as completed.
    pub completed: Vec<String>,
    /// Interface language code ("en" or "es").
    pub language: String,
}

/// The preferences as text.
pub struct ConfigView {
    pub username: Seq<char>,
    pub completed: Seq<Seq<char>>,
    pub language: Seq<char>,
}

/// The texts of a list of strings.
pub open spec fn strings(v: Seq<String>) -> Seq<Seq<char>> {
    v.map_values(|s: String| s@)
}

impl View for ConfigFile {
    type V = ConfigView;

    open spec fn view(&self) -> ConfigView {
        ConfigView {
            username: self.username@,
            completed: strings(self.completed@),
            language: self.language@,
        }
    }
}

/// Preferences where none could be read: every field empty.
pub open spec fn blank_config() -> ConfigView {
    ConfigView { username: Seq::empty(), completed: Seq::empty(), language: Seq::empty() }
}

impl Default for ConfigFile {
    fn default() -> (r: Self)
        ensures
            r@ == blank_config(),
    {
        let r = ConfigFile { username: String::new(), completed: Vec::new(), language: String::new() };
        assert(strings(r.completed@) =~= Seq::<Seq<char>>::empty());
        r
    }
}

/// The preferences a save starts from: what was read, or blank ones.
pub open spec fn base_config(c: Option<ConfigView>) -> ConfigView {
    match c {
        Some(v) => v,
        None => blank_config(),
    }
}

/// The stored username ("" without preferences).
pub open spec fn username_of(c: Option<ConfigView>) -> Seq<char> {
    base_config(c).username
}

/// The stored language; an unknown or missing code means English.
pub open spec fn language_of(c: Option<ConfigView>) -> Lang {
    Lang::of_code(base_config(c).language)
}

/// The stored completed machines (none without preferences).
pub open spec fn completed_of(c: Option<ConfigView>) -> Seq<Seq<char>> {
    base_config(c).completed
}

/// The preferences after saving `username` (trimmed).
pub open spec fn with_username(c: Option<ConfigView>, username: Seq<char>) -> ConfigView {
    ConfigView { username: trim(username), ..base_config(c) }
}

/// The preferences after saving language `lang`.
pub open spec fn with_language(c: Option<ConfigView>, lang: Lang) -> ConfigView {
    ConfigView { language: lang.code(), ..base_config(c) }
}

/// The preferences after saving the completed machines `slugs`.
pub open spec fn with_completed(c: Option<ConfigView>, slugs: Seq<Seq<char>>) -> ConfigView {
    ConfigView { completed: slugs, ..base_config(c) }
}

/// The preferences file as last read: `None` when it is missing or cannot
/// be parsed.
pub struct ConfigManager {
    config: Option<ConfigFile>,
}

/// The view of preferences that may be missing.
pub open spec fn config_view(c: Option<ConfigFile>) -> Option<ConfigView> {
    match c {
        Some(f) => Some(f@),
        None => None,
    }
}

pub(crate) fn copy_strings(v: &Vec<String>) -> (r: Vec<String>)
    ensures
        strings(r@) == strings(v@),
{
    let mut out: Vec<String> = Vec::new();
    let mut i: usize = 0;
    while i < v.len()
        invariant
            i <= v.len(),
            strings(out@) == strings(v@.take(i as int)),
        decreases v.len() - i,
    {
        let ghost before = out@;
        let x = owned(v[i].as_str());
        out.push(x);
        assert(v@.take(i + 1) == v@.take(i as int).push(v@[i as int]));
        assert(strings(out@) =~= strings(before).push(x@));
        assert(strings(v@.take(i + 1)) =~= strings(v@.take(i as int)).push(v@[i as int]@));
        i += 1;
    }
    assert(v@.take(v.len() as int) == v@);
    out
}

fn copy_config(c: &ConfigFile) -> (r: ConfigFile)
    ensures
        r@ == c@,
{
    ConfigFile {
        username: owned(c.username.as_str()),
        completed: copy_strings(&c.completed),
        language: owned(c.language.as_str()),
    }
}

impl ConfigManager {
    /// The preferences as read from the file (`None` when there were none
    /// to read).
    pub fn with_config(config: Option<ConfigFile>) -> (r: Self)
        ensures
            r.stored() == config_view(config),
    {
        ConfigManager { config }
    }

    /// The preferences as last read.
    pub closed spec fn stored(&self) -> Option<ConfigView> {
        config_view(self.config)
    }

    fn base(&self) -> (r: ConfigFile)
        ensures
            r@ == base_config(self.stored()),
    {
        match &self.config {
            Some(c) => copy_config(c),
            None => ConfigFile::default(),
        }
    }

    /// The self-declared username used for flag and writeup submissions.
    pub fn username(&self) -> (r: String)
        ensures
            r@ == username_of(self.stored()),
    {
        self.base().username
    }

    /// The interface language; an invalid or missing code falls back to
    /// English.
    pub fn language(&self) -> (r: Lang)
        ensures
            r == language_of(self.stored()),
    {
        let cfg = self.base();
        Lang::from_code(cfg.language.as_str())
    }

    /// The machines marked as completed.
    pub fn completed_machines(&self) -> (r: Vec<String>)
        ensures
            strings(r@) == completed_of(self.stored()),
    {
        self.base().completed
    }

    /// The preferences to write to save the interface language `lang`.
    pub fn saving_language(&self, lang: Lang) -> (r: ConfigFile)
        ensures
            r@ == with_language(self.stored(), lang),
    {
        let mut cfg = self.base();
        cfg.language = owned(lang.as_str());
        cfg
    }

    /// The preferences to write to save the completed machines `slugs`.
    pub fn saving_completed_machines(&self, slugs: Vec<String>) -> (r: ConfigFile)
        ensures
            r@ == with_completed(self.stored(), strings(slugs@)),
    {
        let mut cfg = self.base();
        cfg.completed = slugs;
        cfg
    }

    /// The preferences to write to save `username` (trimmed).
    pub fn saving_username(&self, username: &str) -> (r: ConfigFile)
        ensures
            r@ == with_username(self.stored(), username@),
    {
        let mut cfg = self.base();
        cfg.username = trimmed(username);
        cfg
    }

    /// The preferences now that `config` was written.
    pub fn saved(&mut self, config: ConfigFile)
        ensures
            final(self).stored() == Some(config@),
    {
        self.config = Some(config);
    }
}

/// Reading the username back after saving `username` gives it trimmed.
pub proof fn saved_username_reads_back(c: Option<ConfigView>, username: Seq<char>)
    ensures
        username_of(Some(with_username(c, username))) == trim(username),
{
}

/// Reading the language back after saving `lang` gives `lang`.
pub proof fn saved_language_reads_back(c: Option<ConfigView>, lang: Lang)
    ensures
        language_of(Some(with_language(c, lang))) == lang,
{
    crate::i18n::language_toggle_and_code_round_trip(lang);
}

/// Reading the completed machines back after saving `slugs` gives `slugs`.
pub proof fn saved_completed_reads_back(c: Option<ConfigView>, slugs: Seq<Seq<char>>)
    ensures
        completed_of(Some(with_completed(c, slugs))) == slugs,
{
}

/// Saving one preference leaves the other two as they read before.
pub proof fn saves_keep_other_preferences(
    c: Option<ConfigView>,
    username: Seq<char>,
    lang: Lang,
    slugs: Seq<Seq<char>>,
)
    ensures
        language_of(Some(with_username(c, username))) == language_of(c),
        completed_of(Some(with_username(c, username))) == completed_of(c),
        username_of(Some(with_language(c, lang))) == username_of(c),
        completed_of(Some(with_language(c, lang))) == completed_of(c),
        username_of(Some(with_completed(c, slugs))) == username_of(c),
        language_of(Some(with_completed(c, slugs))) == language_of(c),
{
}


/// One save of a preference to the file.
pub enum PreferenceSave {
    Username(Seq<char>),
    Language(Lang),
    Completed(Seq<Seq<char>>),
}

/// The preferences after the saves `saves`, in order, starting from `c`.
pub open spec fn after_saves(c: Option<ConfigView>, saves: Seq<PreferenceSave>) -> Option<ConfigView>
    decreases saves.len(),
{
    if saves.len() == 0 {
        c
    } else {
        let prev = after_saves(c, saves.drop_last());
        Some(
            match saves.last() {
                PreferenceSave::Username(u) => with_username(prev, u),
                PreferenceSave::Language(l) => with_language(prev, l),
                PreferenceSave::Completed(slugs) => with_completed(prev, slugs),
            },
        )
    }
}

/// The last username among the saves, if any.
pub open spec fn last_username(saves: Seq<PreferenceSave>) -> Option<Seq<char>>
    decreases saves.len(),
{
    if saves.len() == 0 {
        None
    } else {
        match saves.last() {
            PreferenceSave::Username(u) => Some(u),
            _ => last_username(saves.drop_last()),
        }
    }
}

/// The last language among the saves, if any.
pub open spec fn last_language(saves: Seq<PreferenceSave>) -> Option<Lang>
    decreases saves.len(),
{
    if saves.len() == 0 {
        None
    } else {
        match saves.last() {
            PreferenceSave::Language(l) => Some(l),
            _ => last_language(saves.drop_last()),
        }
    }
}

/// The last completed marks among the saves, if any.
pub open spec fn last_completed(saves: Seq<PreferenceSave>) -> Option<Seq<Seq<char>>>
    decreases saves.len(),
{
    if saves.len() == 0 {
        None
    } else {
        match saves.last() {
            PreferenceSave::Completed(slugs) => Some(slugs),
            _ => last_completed(saves.drop_last()),
        }
    }
}

/// Over any sequence of saves, each preference reads back as its last
/// save (the username trimmed), whatever else was saved after it, and as
/// it read before when it was never saved.
pub proof fn preferences_read_back_their_last_save(
    c: Option<ConfigView>,
    saves: Seq<PreferenceSave>,
)
    ensures
        username_of(after_saves(c, saves)) == match last_username(saves) {
            Some(u) => trim(u),
            None => username_of(c),
        },
        language_of(after_saves(c, saves)) == match last_language(saves) {
            Some(l) => l,
            None => language_of(c),
        },
        completed_of(after_saves(c, saves)) == match last_completed(saves) {
            Some(slugs) => slugs,
            None => completed_of(c),
        },
    decreases saves.len(),
{
    if saves.len() > 0 {
        let prev = after_saves(c, saves.drop_last());
        preferences_read_back_their_last_save(c, saves.drop_last());
        match saves.last() {
            PreferenceSave::Username(u) => {
                saved_username_reads_back(prev, u);
                saves_keep_other_preferences(prev, u, Lang::En, Seq::empty());
            },
            PreferenceSave::Language(l) => {
                saved_language_reads_back(prev, l);
                saves_keep_other_preferences(prev, Seq::empty(), l, Seq::empty());
            },
            PreferenceSave::Completed(slugs) => {
                saved_completed_reads_back(prev, slugs);
                saves_keep_other_preferences(prev, Seq::empty(), Lang::En, slugs);
            },
        }
    }
}


} // verus!
