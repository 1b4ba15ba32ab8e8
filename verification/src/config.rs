//! The configuration: what to watch and where to announce it.

use vstd::prelude::*;

use crate::text::{all_white, concat, lemma_trimmed_empty, trim};

verus! {

/// The whole configuration.
pub struct Config {
    pub poll_interval_secs: u64,
    pub notify_on_first_run: bool,
    pub state_path: String,
    pub webhook_url: Option<String>,
    pub discord_username: Option<String>,
    pub watch: Vec<Watch>,
    pub youtube: Vec<YoutubeWatch>,
}

/// A watched note.com creator (a `[[watch]]` entry).
pub struct Watch {
    pub urlname: String,
    pub webhook_url: Option<String>,
    pub discord_username: Option<String>,
    pub mention: Option<String>,
}

/// A watched YouTube channel (a `[[youtube]]` entry): a channel id, a channel
/// URL, a handle or a handle URL.
pub struct YoutubeWatch {
    pub channel: String,
    pub webhook_url: Option<String>,
    pub discord_username: Option<String>,
    pub mention: Option<String>,
}

/// Why a configuration is refused.
#[derive(Debug)]
pub enum ConfigError {
    /// There is no `[[watch]]` entry.
    NoWatch,
    /// A `[[watch]]` entry's urlname is empty or white space.
    EmptyUrlname,
    /// A `[[watch]]` entry has no webhook of its own and there is no top-level one.
    NoWebhook { urlname: String },
}

/// The polling interval where the configuration gives none, in seconds.
pub fn default_interval() -> (r: u64)
    ensures
        r == 300,
{
    300
}

/// The state file where the configuration names none.
pub fn default_state_path() -> (r: String)
    ensures
        r@ == "state.json"@,
{
    "state.json".to_owned()
}

/// A setting that is present and not empty.
pub open spec fn non_empty_of(s: Option<String>) -> Option<Seq<char>> {
    match s {
        Some(v) => if v@.len() > 0 {
            Some(v@)
        } else {
            None
        },
        None => None,
    }
}

/// The setting, where it is present and not empty.
pub fn non_empty(s: &Option<String>) -> (r: Option<&str>)
    ensures
        match r {
            Some(v) => non_empty_of(*s) == Some(v@),
            None => non_empty_of(*s) is None,
        },
{
    match s {
        Some(v) => if v.as_str().is_empty() {
            None
        } else {
            Some(v.as_str())
        },
        None => None,
    }
}

impl Config {
    /// The webhook for an entry with the given own setting: its own where it
    /// is not empty, else the top-level one where that is not empty, else nothing.
    pub open spec fn webhook_of(self, own: Option<String>) -> Seq<char> {
        match non_empty_of(own) {
            Some(v) => v,
            None => match non_empty_of(self.webhook_url) {
                Some(v) => v,
                None => Seq::empty(),
            },
        }
    }

    /// The user name for an entry with the given own setting: its own where it
    /// is not empty, else the top-level one where that is not empty.
    pub open spec fn username_of(self, own: Option<String>) -> Option<Seq<char>> {
        match non_empty_of(own) {
            Some(v) => Some(v),
            None => non_empty_of(self.discord_username),
        }
    }

    /// The webhook for an entry with the given own setting.
    pub fn webhook_from<'a>(&'a self, own: &'a Option<String>) -> (r: &'a str)
        ensures
            r@ == self.webhook_of(*own),
            (*own matches Some(v) && v@.len() > 0) ==> r@ == own->0@,
            !(*own matches Some(v) && v@.len() > 0) && (self.webhook_url matches Some(t) && t@.len() > 0)
                ==> r@ == self.webhook_url->0@,
            !(*own matches Some(v) && v@.len() > 0) && !(self.webhook_url matches Some(t) && t@.len() > 0)
                ==> r@.len() == 0,
    {
        match non_empty(own) {
            Some(v) => v,
            None => match non_empty(&self.webhook_url) {
                Some(v) => v,
                None => {
                    proof {
                        reveal_strlit("");
                    }
                    ""
                },
            },
        }
    }

    /// The user name for an entry with the given own setting.
    pub fn username_from<'a>(&'a self, own: &'a Option<String>) -> (r: Option<&'a str>)
        ensures
            match r {
                Some(v) => self.username_of(*own) == Some(v@),
                None => self.username_of(*own) is None,
            },
            (*own matches Some(v) && v@.len() > 0) ==> (r matches Some(x) && x@ == own->0@),
            !(*own matches Some(v) && v@.len() > 0) && (self.discord_username matches Some(t) && t@.len() > 0)
                ==> (r matches Some(x) && x@ == self.discord_username->0@),
            !(*own matches Some(v) && v@.len() > 0) && !(self.discord_username matches Some(t) && t@.len()
                > 0) ==> r is None,
    {
        match non_empty(own) {
            Some(v) => Some(v),
            None => non_empty(&self.discord_username),
        }
    }

    /// The webhook that a watched creator's posts go to (empty where none is set).
    pub fn webhook_for<'a>(&'a self, w: &'a Watch) -> (r: &'a str)
        ensures
            r@ == self.webhook_of(w.webhook_url),
    {
        self.webhook_from(&w.webhook_url)
    }

    /// The user name that a watched creator's posts are announced under.
    pub fn username_for<'a>(&'a self, w: &'a Watch) -> (r: Option<&'a str>)
        ensures
            match r {
                Some(v) => self.username_of(w.discord_username) == Some(v@),
                None => self.username_of(w.discord_username) is None,
            },
    {
        self.username_from(&w.discord_username)
    }

    /// Whether a `[[watch]]` entry is usable: it names a creator and has a webhook.
    pub open spec fn watch_ok(self, w: Watch) -> bool {
        !all_white(w.urlname@) && self.webhook_of(w.webhook_url).len() > 0
    }

    /// The first problem among the `[[watch]]` entries from index `i` on.
    pub open spec fn problem_from(self, i: int) -> Result<(), ConfigError>
        decreases self.watch@.len() - i,
    {
        if i < 0 || i >= self.watch@.len() {
            Ok(())
        } else if all_white(self.watch@[i].urlname@) {
            Err(ConfigError::EmptyUrlname)
        } else if self.webhook_of(self.watch@[i].webhook_url).len() == 0 {
            Err(ConfigError::NoWebhook { urlname: self.watch@[i].urlname })
        } else {
            self.problem_from(i + 1)
        }
    }

    /// What checking the configuration gives: no entries, or the first
    /// entry's problem, or success.
    pub open spec fn validation(self) -> Result<(), ConfigError> {
        if self.watch@.len() == 0 {
            Err(ConfigError::NoWatch)
        } else {
            self.problem_from(0)
        }
    }

    /// Checks that there is an entry and that every entry names a creator and
    /// has a webhook, reporting the first entry that does not.
    pub fn validate(&self) -> (r: Result<(), ConfigError>)
        ensures
            r == self.validation(),
            self.watch@.len() == 0 ==> r matches Err(ConfigError::NoWatch),
            r is Ok <==> self.watch@.len() > 0 && forall|i: int|
                0 <= i < self.watch@.len() ==> !all_white(#[trigger] self.watch@[i].urlname@) && ((
                self.watch@[i].webhook_url matches Some(v) && v@.len() > 0) || (self.webhook_url matches Some(
                t) && t@.len() > 0)),
    {
        proof {
            lemma_validation_ok(*self);
        }
        if self.watch.len() == 0 {
            return Err(ConfigError::NoWatch);
        }
        let mut i: usize = 0;
        while i < self.watch.len()
            invariant
                i <= self.watch@.len(),
                self.watch@.len() > 0,
                self.validation() == self.problem_from(i as int),
            decreases self.watch@.len() - i,
        {
            let w = &self.watch[i];
            let name = trim(w.urlname.as_str());
            proof {
                lemma_trimmed_empty(w.urlname@);
            }
            if name.is_empty() {
                return Err(ConfigError::EmptyUrlname);
            }
            if self.webhook_for(w).is_empty() {
                return Err(ConfigError::NoWebhook { urlname: w.urlname.clone() });
            }
            i = i + 1;
        }
        Ok(())
    }

    /// The configuration with the webhook from the environment put in where
    /// the file sets no top-level one.
    pub open spec fn with_env(self, env_webhook: Option<String>) -> Config {
        if non_empty_of(self.webhook_url) is None && non_empty_of(env_webhook) is Some {
            Config { webhook_url: env_webhook, ..self }
        } else {
            self
        }
    }

    /// Completes a configuration read from its file: takes the top-level
    /// webhook from the environment (`DISCORD_WEBHOOK_URL`) where the file
    /// sets none, then checks it.
    pub fn with_env_webhook(self, env_webhook: Option<String>) -> (r: Result<Config, ConfigError>)
        ensures
            match r {
                Ok(c) => c == self.with_env(env_webhook) && self.with_env(env_webhook).validation() is Ok,
                Err(e) => self.with_env(env_webhook).validation() == Err::<(), ConfigError>(e),
            },
            // The environment's webhook fills an absent or empty top-level one.
            (self.webhook_url is None || self.webhook_url->0@.len() == 0) && (env_webhook matches Some(v)
                && v@.len() > 0) ==> (r matches Ok(c) ==> c.webhook_url == env_webhook),
            (self.webhook_url is None || self.webhook_url->0@.len() == 0) && (env_webhook matches Some(v)
                && v@.len() > 0) && self.watch@.len() > 0 && (forall|i: int|
                0 <= i < self.watch@.len() ==> !all_white(#[trigger] self.watch@[i].urlname@)) ==> (r matches Ok(
                c) && c.webhook_url == env_webhook),
            // A top-level webhook of the file's own is kept.
            (self.webhook_url matches Some(w) && w@.len() > 0) ==> (r matches Ok(c) ==> c.webhook_url
                == self.webhook_url),
            // Without a webhook anywhere, an entry with no webhook of its own is refused.
            (self.webhook_url is None || self.webhook_url->0@.len() == 0) && (env_webhook is None
                || env_webhook->0@.len() == 0) && (exists|i: int|
                0 <= i < self.watch@.len() && (#[trigger] self.watch@[i]).webhook_url is None) ==> r is Err,
            r matches Ok(c) ==> {
                &&& c.watch == self.watch
                &&& c.youtube == self.youtube
                &&& c.poll_interval_secs == self.poll_interval_secs
                &&& c.notify_on_first_run == self.notify_on_first_run
                &&& c.state_path == self.state_path
                &&& c.discord_username == self.discord_username
            },
    {
        proof {
            lemma_validation_ok(self.with_env(env_webhook));
            let c = self.with_env(env_webhook);
            if (self.webhook_url is None || self.webhook_url->0@.len() == 0) && (env_webhook is Some
                && env_webhook->0@.len() > 0) {
                assert forall|i: int| 0 <= i < c.watch@.len() implies c.webhook_of(
                    #[trigger] c.watch@[i].webhook_url,
                ).len() > 0 by {}
            }
        }
        let mut cfg = self;
        if non_empty(&cfg.webhook_url).is_none() {
            if let Some(v) = env_webhook {
                if !v.as_str().is_empty() {
                    cfg.webhook_url = Some(v);
                }
            }
        }
        match cfg.validate() {
            Ok(()) => Ok(cfg),
            Err(e) => Err(e),
        }
    }
}

/// A configuration passes its check exactly when it has an entry and every
/// entry names a creator and has a webhook.
pub proof fn lemma_validation_ok(cfg: Config)
    ensures
        cfg.validation() is Ok <==> cfg.watch@.len() > 0 && forall|i: int|
            0 <= i < cfg.watch@.len() ==> cfg.watch_ok(#[trigger] cfg.watch@[i]),
{
    if cfg.watch@.len() > 0 {
        lemma_problem_from(cfg, 0);
    }
}

proof fn lemma_problem_from(cfg: Config, i: int)
    requires
        0 <= i <= cfg.watch@.len(),
    ensures
        cfg.problem_from(i) is Ok <==> forall|k: int|
            i <= k < cfg.watch@.len() ==> cfg.watch_ok(#[trigger] cfg.watch@[k]),
    decreases cfg.watch@.len() - i,
{
    if i < cfg.watch@.len() {
        lemma_problem_from(cfg, i + 1);
        if cfg.problem_from(i) is Ok {
            assert forall|k: int| i <= k < cfg.watch@.len() implies cfg.watch_ok(
                #[trigger] cfg.watch@[k],
            ) by {
                if k > i {
                    assert(cfg.watch_ok(cfg.watch@[k]));
                }
            }
        }
    }
}

impl ConfigError {
    /// The message that reports the error.
    pub fn message(&self) -> (r: String)
        ensures
            match self {
                ConfigError::NoWatch => r@ == "no [[watch]] entries in config"@,
                ConfigError::EmptyUrlname => r@ == "a [[watch]] entry has an empty urlname"@,
                ConfigError::NoWebhook { urlname } => r@ == "watch '"@ + urlname@
                    + "' has no webhook_url and no top-level webhook_url is set"@,
            },
    {
        match self {
            ConfigError::NoWatch => "no [[watch]] entries in config".to_owned(),
            ConfigError::EmptyUrlname => "a [[watch]] entry has an empty urlname".to_owned(),
            ConfigError::NoWebhook { urlname } => {
                let head = concat("watch '", urlname.as_str());
                concat(head.as_str(), "' has no webhook_url and no top-level webhook_url is set")
            },
        }
    }
}

} // verus!
