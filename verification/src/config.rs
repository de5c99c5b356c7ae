//! The settings of the tracker, and the names under which applications are shown.

use crate::text::same_text;
use vstd::prelude::*;

verus! {

/// The settings: the seconds between two samples, the seconds after which a user counts as
/// away (advisory: the session manager decides), and the display names that the user gave to
/// application identities.
#[derive(Debug, Clone, PartialEq, Eq)]
pub struct Config {
    pub interval: u64,
    pub idle_timeout: u64,
    pub alias: Vec<(String, String)>,
}

/// What a settings file holds: each setting that it names.
#[derive(Debug, Clone, PartialEq, Eq)]
pub struct ConfigFile {
    pub interval: Option<u64>,
    pub idle_timeout: Option<u64>,
    pub alias: Option<Vec<(String, String)>>,
}

/// Seconds between two samples where the settings name none.
pub fn default_interval() -> (r: u64)
    ensures
        r == 1,
{
    1
}

/// Seconds after which a user counts as away where the settings name none.
pub fn default_idle_timeout() -> (r: u64)
    ensures
        r == 300,
{
    300
}

/// The place of the first alias for `raw` in `table`, or the length of `table` if none is.
pub open spec fn find_alias(table: Seq<(String, String)>, raw: Seq<char>) -> int
    decreases table.len(),
{
    if table.len() == 0 {
        0
    } else if table.first().0@ == raw {
        0
    } else {
        1 + find_alias(table.drop_first(), raw)
    }
}

/// The name under which `raw` is shown: its first alias, or `raw` itself.
pub open spec fn shown_as(table: Seq<(String, String)>, raw: Seq<char>) -> Seq<char> {
    let at = find_alias(table, raw);
    if 0 <= at < table.len() {
        table[at].1@
    } else {
        raw
    }
}

/// `find_alias` gives the first place whose identity is `raw`.
pub proof fn lemma_find_alias(table: Seq<(String, String)>, raw: Seq<char>)
    ensures
        0 <= find_alias(table, raw) <= table.len(),
        find_alias(table, raw) < table.len() ==> table[find_alias(table, raw)].0@ == raw,
        forall|i: int| 0 <= i < find_alias(table, raw) ==> (#[trigger] table[i]).0@ != raw,
    decreases table.len(),
{
    if table.len() > 0 && table.first().0@ != raw {
        let rest = table.drop_first();
        lemma_find_alias(rest, raw);
        assert forall|i: int| 0 <= i < find_alias(table, raw) implies (#[trigger] table[i]).0@
            != raw by {
            if i > 0 {
                assert(table[i] == rest[i - 1]);
            }
        }
    }
}

impl Config {
    /// The settings that hold where no file names any.
    pub fn defaults() -> (c: Config)
        ensures
            c.interval == 1,
            c.idle_timeout == 300,
            c.alias@.len() == 0,
    {
        Config {
            interval: default_interval(),
            idle_timeout: default_idle_timeout(),
            alias: Vec::new(),
        }
    }

    /// The settings that a file comes to: what it names, and the default for what it leaves
    /// out. `None` stands for a file that is missing or cannot be read as settings, and comes
    /// to the defaults.
    pub fn load(file: Option<ConfigFile>) -> (c: Config)
        ensures
            c.interval == (match file {
                Some(f) => match f.interval {
                    Some(v) => v,
                    None => 1,
                },
                None => 1,
            }),
            c.idle_timeout == (match file {
                Some(f) => match f.idle_timeout {
                    Some(v) => v,
                    None => 300,
                },
                None => 300,
            }),
            c.alias@ == (match file {
                Some(f) => match f.alias {
                    Some(table) => table@,
                    None => Seq::empty(),
                },
                None => Seq::empty(),
            }),
    {
        match file {
            None => Config::defaults(),
            Some(f) => {
                let interval = match f.interval {
                    Some(v) => v,
                    None => default_interval(),
                };
                let idle_timeout = match f.idle_timeout {
                    Some(v) => v,
                    None => default_idle_timeout(),
                };
                let alias = match f.alias {
                    Some(table) => table,
                    None => Vec::new(),
                };
                Config { interval, idle_timeout, alias }
            },
        }
    }

    /// The name under which the application `raw` is shown: the alias that the settings give
    /// it, or `raw` itself where they give none.
    pub fn display_name(&self, raw: &str) -> (name: String)
        ensures
            name@ == shown_as(self.alias@, raw@),
    {
        let mut i: usize = 0;
        while i < self.alias.len()
            invariant
                i <= self.alias@.len(),
                forall|k: int| 0 <= k < i ==> (#[trigger] self.alias@[k]).0@ != raw@,
            decreases self.alias@.len() - i,
        {
            if same_text(self.alias[i].0.as_str(), raw) {
                proof {
                    lemma_find_alias(self.alias@, raw@);
                    assert(self.alias@[i as int].0@ == raw@);
                }
                return self.alias[i].1.clone();
            }
            i = i + 1;
        }
        proof {
            lemma_find_alias(self.alias@, raw@);
        }
        raw.to_owned()
    }
}

} // verus!
