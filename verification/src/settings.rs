//! What the user can change: the stored values, their defaults, and what the
//! settings window is shown of them.
//!
//! Where the values are kept (a JSON file in the app's config directory) is the
//! application's business; this is what they mean.
use vstd::prelude::*;
use crate::text::{chars_of, string_of, trim, trim_range};

verus! {

/// The colour the app ships with, and what it falls back to.
pub const DEFAULT_ACCENT: &'static str = "graphite";

/// Bedrock is the default because it needs nothing typed in.
pub const DEFAULT_PROVIDER: &'static str = "bedrock";

/// Everything stored. An empty string means "not set": for the keys that is
/// what sends translation back to Bedrock, and for the accent and the provider
/// it is resolved to the defaults by [`fill_defaults`].
pub struct Stored {
    pub accent: String,
    /// `"bedrock"`, `"kimi"`, `"deepseek"`, `"qwen"` or `"local"`. A string
    /// rather than an enum, so a name written by a later version survives.
    pub provider: String,
    pub kimi_api_key: String,
    pub deepseek_api_key: String,
    pub qwen_api_key: String,
    /// The AWS profile Bedrock uses; empty means AWS's own default chain.
    pub aws_profile: String,
}

/// The stored values as text.
pub struct StoredModel {
    pub accent: Seq<char>,
    pub provider: Seq<char>,
    pub kimi_api_key: Seq<char>,
    pub deepseek_api_key: Seq<char>,
    pub qwen_api_key: Seq<char>,
    pub aws_profile: Seq<char>,
}

impl View for Stored {
    type V = StoredModel;

    open spec fn view(&self) -> StoredModel {
        StoredModel {
            accent: self.accent@,
            provider: self.provider@,
            kimi_api_key: self.kimi_api_key@,
            deepseek_api_key: self.deepseek_api_key@,
            qwen_api_key: self.qwen_api_key@,
            aws_profile: self.aws_profile@,
        }
    }
}

/// Everything empty: what an unreadable or missing file parses as, before the
/// defaults are filled in.
impl Default for Stored {
    fn default() -> (s: Self)
        ensures
            s@ == (StoredModel {
                accent: Seq::empty(),
                provider: Seq::empty(),
                kimi_api_key: Seq::empty(),
                deepseek_api_key: Seq::empty(),
                qwen_api_key: Seq::empty(),
                aws_profile: Seq::empty(),
            }),
    {
        Stored {
            accent: String::new(),
            provider: String::new(),
            kimi_api_key: String::new(),
            deepseek_api_key: String::new(),
            qwen_api_key: String::new(),
            aws_profile: String::new(),
        }
    }
}

/// The first run: the default accent and provider, nothing else set.
pub fn defaults() -> (s: Stored)
    ensures
        s@ == (StoredModel {
            accent: DEFAULT_ACCENT@,
            provider: DEFAULT_PROVIDER@,
            kimi_api_key: Seq::empty(),
            deepseek_api_key: Seq::empty(),
            qwen_api_key: Seq::empty(),
            aws_profile: Seq::empty(),
        }),
{
    Stored {
        accent: DEFAULT_ACCENT.to_owned(),
        provider: DEFAULT_PROVIDER.to_owned(),
        kimi_api_key: String::new(),
        deepseek_api_key: String::new(),
        qwen_api_key: String::new(),
        aws_profile: String::new(),
    }
}

/// What was read, with an empty accent or provider resolved to the default.
pub open spec fn filled(s: StoredModel) -> StoredModel {
    StoredModel {
        accent: if s.accent.len() == 0 {
            DEFAULT_ACCENT@
        } else {
            s.accent
        },
        provider: if s.provider.len() == 0 {
            DEFAULT_PROVIDER@
        } else {
            s.provider
        },
        ..s
    }
}

/// Fills in the defaults for whatever is missing from what was read. A file
/// written before providers existed holds only an accent and keeps it.
pub fn fill_defaults(stored: Stored) -> (s: Stored)
    ensures
        s@ == filled(stored@),
{
    let mut s = stored;
    if s.accent.as_str().is_empty() {
        s.accent = DEFAULT_ACCENT.to_owned();
    }
    if s.provider.as_str().is_empty() {
        s.provider = DEFAULT_PROVIDER.to_owned();
    }
    s
}

/// What the settings window draws the translation-service panel from.
/// Deliberately not the keys themselves: only whether each is set.
pub struct ProviderConfig {
    pub provider: String,
    pub kimi_key_set: bool,
    pub deepseek_key_set: bool,
    pub qwen_key_set: bool,
    pub aws_profile: String,
}

pub fn provider_config(stored: &Stored) -> (c: ProviderConfig)
    ensures
        c.provider@ == stored.provider@,
        c.kimi_key_set == (stored.kimi_api_key@.len() > 0),
        c.deepseek_key_set == (stored.deepseek_api_key@.len() > 0),
        c.qwen_key_set == (stored.qwen_api_key@.len() > 0),
        c.aws_profile@ == stored.aws_profile@,
{
    ProviderConfig {
        provider: stored.provider.clone(),
        kimi_key_set: !stored.kimi_api_key.as_str().is_empty(),
        deepseek_key_set: !stored.deepseek_api_key.as_str().is_empty(),
        qwen_key_set: !stored.qwen_api_key.as_str().is_empty(),
        aws_profile: stored.aws_profile.clone(),
    }
}

/// `s` trimmed, as a `String`.
fn trimmed(s: &str) -> (r: String)
    ensures
        r@ == trim(s@),
{
    let v = chars_of(s);
    assert(v@.subrange(0, v@.len() as int) =~= v@);
    string_of(&trim_range(&v, 0, v.len()))
}

impl Stored {
    /// Records the accent as it arrives: an accent the palette does not define
    /// simply renders as the default.
    pub fn set_accent(&mut self, accent: &str)
        ensures
            final(self)@ == (StoredModel { accent: accent@, ..old(self)@ }),
    {
        self.accent = accent.to_owned();
    }

    pub fn set_provider(&mut self, provider: &str)
        ensures
            final(self)@ == (StoredModel { provider: provider@, ..old(self)@ }),
    {
        self.provider = provider.to_owned();
    }

    /// Records the AWS profile, trimmed; empty clears it back to AWS's own
    /// default chain.
    pub fn set_aws_profile(&mut self, profile: &str)
        ensures
            final(self)@ == (StoredModel { aws_profile: trim(profile@), ..old(self)@ }),
    {
        self.aws_profile = trimmed(profile);
    }

    /// Records the Kimi key, trimmed; empty clears it. Whether a key is now set.
    pub fn set_kimi_api_key(&mut self, key: &str) -> (set: bool)
        ensures
            final(self)@ == (StoredModel { kimi_api_key: trim(key@), ..old(self)@ }),
            set == (trim(key@).len() > 0),
    {
        self.kimi_api_key = trimmed(key);
        !self.kimi_api_key.as_str().is_empty()
    }

    /// Records the DeepSeek key, trimmed; empty clears it. Whether a key is now
    /// set.
    pub fn set_deepseek_api_key(&mut self, key: &str) -> (set: bool)
        ensures
            final(self)@ == (StoredModel { deepseek_api_key: trim(key@), ..old(self)@ }),
            set == (trim(key@).len() > 0),
    {
        self.deepseek_api_key = trimmed(key);
        !self.deepseek_api_key.as_str().is_empty()
    }

    /// Records the Qwen key, trimmed; empty clears it. Whether a key is now set.
    pub fn set_qwen_api_key(&mut self, key: &str) -> (set: bool)
        ensures
            final(self)@ == (StoredModel { qwen_api_key: trim(key@), ..old(self)@ }),
            set == (trim(key@).len() > 0),
    {
        self.qwen_api_key = trimmed(key);
        !self.qwen_api_key.as_str().is_empty()
    }
}

/// Filling in the defaults twice changes nothing the first time did not, and
/// never touches a value that was set.
pub proof fn filling_defaults_is_idempotent(s: StoredModel)
    ensures
        filled(filled(s)) == filled(s),
        s.accent.len() > 0 ==> filled(s).accent == s.accent,
        s.provider.len() > 0 ==> filled(s).provider == s.provider,
{
    reveal_strlit("graphite");
    reveal_strlit("bedrock");
}

} // verus!
