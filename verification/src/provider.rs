//! Which service translates: the choice from the stored settings or the
//! environment, the name each service goes by, and where each request goes.
use vstd::prelude::*;
use std::path::PathBuf;
use crate::json::Json;
use crate::settings::Stored;
use crate::text::{chars_of, push_str, same_text, starts_with_at, string_of};

verus! {

#[verifier::external_type_specification]
#[verifier::external_body]
pub struct ExPathBuf(PathBuf);

/// The path `PathBuf::from` builds from a string.
pub uninterp spec fn path_of(s: Seq<char>) -> PathBuf;

/// Calls `PathBuf::from(String)`, which takes the string over as the path; the
/// contract claims only that the path is a function of the string.
#[verifier::external_body]
fn path_from(s: String) -> (p: PathBuf)
    ensures
        p == path_of(s@),
{
    PathBuf::from(s)
}

/// The service a translation goes through. Deliberately without `Debug`: the
/// key-holding variants would otherwise end up in any log line that formatted
/// the value.
pub enum Provider {
    Bedrock(String),
    Kimi(String),
    DeepSeek(String),
    Qwen(String),
    Local { model: PathBuf, binary: PathBuf },
}

pub enum ProviderModel {
    Bedrock(Seq<char>),
    Kimi(Seq<char>),
    DeepSeek(Seq<char>),
    Qwen(Seq<char>),
    Local(PathBuf, PathBuf),
}

impl Provider {
    pub open spec fn model(&self) -> ProviderModel {
        match self {
            Provider::Bedrock(profile) => ProviderModel::Bedrock(profile@),
            Provider::Kimi(key) => ProviderModel::Kimi(key@),
            Provider::DeepSeek(key) => ProviderModel::DeepSeek(key@),
            Provider::Qwen(key) => ProviderModel::Qwen(key@),
            Provider::Local { model, binary } => ProviderModel::Local(*model, *binary),
        }
    }
}

/// Which provider a stored setting means. A provider selected without a key
/// falls back to Bedrock: an empty key means "not configured yet", which is not
/// the same as a key the service rejected. An unknown name falls back too.
pub open spec fn choice_of(
    provider: Seq<char>,
    kimi_key: Seq<char>,
    deepseek_key: Seq<char>,
    qwen_key: Seq<char>,
    aws_profile: Seq<char>,
) -> ProviderModel {
    if provider == "kimi"@ && kimi_key.len() > 0 {
        ProviderModel::Kimi(kimi_key)
    } else if provider == "deepseek"@ && deepseek_key.len() > 0 {
        ProviderModel::DeepSeek(deepseek_key)
    } else if provider == "qwen"@ && qwen_key.len() > 0 {
        ProviderModel::Qwen(qwen_key)
    } else {
        ProviderModel::Bedrock(aws_profile)
    }
}

pub fn choose_provider(provider: &str, kimi_key: &str, deepseek_key: &str, qwen_key: &str, aws_profile: &str) -> (p: Provider)
    ensures
        p.model() == choice_of(provider@, kimi_key@, deepseek_key@, qwen_key@, aws_profile@),
{
    if same_text(provider, "kimi") && !kimi_key.is_empty() {
        Provider::Kimi(kimi_key.to_owned())
    } else if same_text(provider, "deepseek") && !deepseek_key.is_empty() {
        Provider::DeepSeek(deepseek_key.to_owned())
    } else if same_text(provider, "qwen") && !qwen_key.is_empty() {
        Provider::Qwen(qwen_key.to_owned())
    } else {
        Provider::Bedrock(aws_profile.to_owned())
    }
}

/// The log line a fallback earns, so the user can tell why Bedrock answered.
pub open spec fn choice_notice_of(provider: Seq<char>, kimi_key: Seq<char>, deepseek_key: Seq<char>, qwen_key: Seq<char>) -> Option<Seq<char>> {
    if provider == "kimi"@ {
        if kimi_key.len() == 0 {
            Some("[tonemate] kimi selected but no api key set; using bedrock"@)
        } else {
            None
        }
    } else if provider == "deepseek"@ {
        if deepseek_key.len() == 0 {
            Some("[tonemate] deepseek selected but no api key set; using bedrock"@)
        } else {
            None
        }
    } else if provider == "qwen"@ {
        if qwen_key.len() == 0 {
            Some("[tonemate] qwen selected but no api key set; using bedrock"@)
        } else {
            None
        }
    } else if provider == "bedrock"@ {
        None
    } else {
        Some("[tonemate] unrecognised provider \""@ + provider + "\"; using bedrock"@)
    }
}

pub fn choice_notice(provider: &str, kimi_key: &str, deepseek_key: &str, qwen_key: &str) -> (r: Option<String>)
    ensures
        match r {
            Some(s) => choice_notice_of(provider@, kimi_key@, deepseek_key@, qwen_key@) == Some(s@),
            None => choice_notice_of(provider@, kimi_key@, deepseek_key@, qwen_key@) is None,
        },
{
    if same_text(provider, "kimi") {
        if kimi_key.is_empty() {
            Some("[tonemate] kimi selected but no api key set; using bedrock".to_owned())
        } else {
            None
        }
    } else if same_text(provider, "deepseek") {
        if deepseek_key.is_empty() {
            Some("[tonemate] deepseek selected but no api key set; using bedrock".to_owned())
        } else {
            None
        }
    } else if same_text(provider, "qwen") {
        if qwen_key.is_empty() {
            Some("[tonemate] qwen selected but no api key set; using bedrock".to_owned())
        } else {
            None
        }
    } else if same_text(provider, "bedrock") {
        None
    } else {
        let mut out: Vec<char> = Vec::new();
        push_str(&mut out, "[tonemate] unrecognised provider \"");
        push_str(&mut out, provider);
        push_str(&mut out, "\"; using bedrock");
        Some(string_of(&out))
    }
}

/// `value` when it holds something, `fallback` when it is absent or empty.
pub open spec fn or_fallback(value: Option<Seq<char>>, fallback: Seq<char>) -> Seq<char> {
    match value {
        Some(v) => if v.len() > 0 {
            v
        } else {
            fallback
        },
        None => fallback,
    }
}

pub open spec fn opt_text(o: Option<String>) -> Option<Seq<char>> {
    match o {
        Some(s) => Some(s@),
        None => None,
    }
}

/// An environment variable's value (`None` when it is unset or not Unicode),
/// with an empty value treated as unset.
pub fn env_or(value: Option<String>, fallback: &str) -> (r: String)
    ensures
        r@ == or_fallback(opt_text(value), fallback@),
{
    match value {
        Some(v) => if !v.as_str().is_empty() {
            v
        } else {
            fallback.to_owned()
        },
        None => fallback.to_owned(),
    }
}

impl Provider {
    /// The provider the stored settings name, or Bedrock when they name
    /// nothing usable. `model` and `binary` are where the local model and its
    /// server live, used when the local provider is chosen.
    pub fn from_settings(stored: &Stored, model: PathBuf, binary: PathBuf) -> (p: Provider)
        ensures
            p.model() == if stored.provider@ == "local"@ {
                ProviderModel::Local(model, binary)
            } else {
                choice_of(
                    stored.provider@,
                    stored.kimi_api_key@,
                    stored.deepseek_api_key@,
                    stored.qwen_api_key@,
                    stored.aws_profile@,
                )
            },
    {
        if same_text(stored.provider.as_str(), "local") {
            return Provider::Local { model, binary };
        }
        choose_provider(
            stored.provider.as_str(),
            stored.kimi_api_key.as_str(),
            stored.deepseek_api_key.as_str(),
            stored.qwen_api_key.as_str(),
            stored.aws_profile.as_str(),
        )
    }

    /// The log line choosing from the stored settings earns: none for the local
    /// provider, otherwise [`choice_notice`]'s.
    pub fn settings_notice(stored: &Stored) -> (r: Option<String>)
        ensures
            match r {
                Some(s) => stored.provider@ != "local"@ && choice_notice_of(
                    stored.provider@,
                    stored.kimi_api_key@,
                    stored.deepseek_api_key@,
                    stored.qwen_api_key@,
                ) == Some(s@),
                None => stored.provider@ == "local"@ || choice_notice_of(
                    stored.provider@,
                    stored.kimi_api_key@,
                    stored.deepseek_api_key@,
                    stored.qwen_api_key@,
                ) is None,
            },
    {
        if same_text(stored.provider.as_str(), "local") {
            return None;
        }
        choice_notice(
            stored.provider.as_str(),
            stored.kimi_api_key.as_str(),
            stored.deepseek_api_key.as_str(),
            stored.qwen_api_key.as_str(),
        )
    }

    /// The provider to use without settings, configured from environment
    /// values (`None` where a variable is unset): a local model path first,
    /// then the first non-empty key among Kimi, DeepSeek and Qwen, else Bedrock
    /// with the given profile.
    pub fn from_env(
        local_model_path: Option<String>,
        local_binary_path: Option<String>,
        kimi_key: Option<String>,
        deepseek_key: Option<String>,
        qwen_key: Option<String>,
        aws_profile: Option<String>,
    ) -> (p: Provider)
        ensures
            match p {
                Provider::Local { model, binary } => opt_text(local_model_path) matches Some(m) && m.len() > 0
                    && model == path_of(m) && binary == path_of(
                    or_fallback(opt_text(local_binary_path), "llama-server"@),
                ),
                _ => !(opt_text(local_model_path) matches Some(m) && m.len() > 0) && p.model() == env_choice(
                    opt_text(kimi_key),
                    opt_text(deepseek_key),
                    opt_text(qwen_key),
                    opt_text(aws_profile),
                ),
            },
    {
        if let Some(path) = local_model_path {
            if !path.as_str().is_empty() {
                return Provider::Local {
                    model: path_from(path),
                    binary: path_from(env_or(local_binary_path, "llama-server")),
                };
            }
        }
        if let Some(key) = kimi_key {
            if !key.as_str().is_empty() {
                return Provider::Kimi(key);
            }
        }
        if let Some(key) = deepseek_key {
            if !key.as_str().is_empty() {
                return Provider::DeepSeek(key);
            }
        }
        if let Some(key) = qwen_key {
            if !key.as_str().is_empty() {
                return Provider::Qwen(key);
            }
        }
        Provider::Bedrock(env_or(aws_profile, ""))
    }

    /// Names the service in a log line or an error message.
    pub fn label(&self) -> (r: &'static str)
        ensures
            r@ == label_of(self.model()),
    {
        match self {
            Provider::Bedrock(_) => "bedrock",
            Provider::Kimi(_) => "kimi",
            Provider::DeepSeek(_) => "deepseek",
            Provider::Qwen(_) => "qwen",
            Provider::Local { .. } => "local",
        }
    }
}

/// The first non-empty key among Kimi, DeepSeek and Qwen, else Bedrock.
pub open spec fn env_choice(
    kimi: Option<Seq<char>>,
    deepseek: Option<Seq<char>>,
    qwen: Option<Seq<char>>,
    aws_profile: Option<Seq<char>>,
) -> ProviderModel {
    if kimi matches Some(k) && k.len() > 0 {
        ProviderModel::Kimi(kimi->0)
    } else if deepseek matches Some(k) && k.len() > 0 {
        ProviderModel::DeepSeek(deepseek->0)
    } else if qwen matches Some(k) && k.len() > 0 {
        ProviderModel::Qwen(qwen->0)
    } else {
        ProviderModel::Bedrock(or_fallback(aws_profile, ""@))
    }
}

pub open spec fn label_of(p: ProviderModel) -> Seq<char> {
    match p {
        ProviderModel::Bedrock(_) => "bedrock"@,
        ProviderModel::Kimi(_) => "kimi"@,
        ProviderModel::DeepSeek(_) => "deepseek"@,
        ProviderModel::Qwen(_) => "qwen"@,
        ProviderModel::Local(_, _) => "local"@,
    }
}

/// A failure, prefixed with the service it came from, so every provider's
/// failures read the same way: with more than one provider, "API key not valid"
/// does not say whose.
pub fn labelled(provider: &Provider, err: &str) -> (r: String)
    ensures
        r@ == label_of(provider.model()) + ": "@ + err@,
{
    let mut out: Vec<char> = Vec::new();
    push_str(&mut out, provider.label());
    push_str(&mut out, ": ");
    push_str(&mut out, err);
    string_of(&out)
}

pub open spec fn starts_with_text(s: Seq<char>, prefix: Seq<char>) -> bool {
    prefix.len() <= s.len() && s.take(prefix.len() as int) == prefix
}

/// How a translation's outcome is reported: failures labelled with the service.
pub fn translation_outcome(provider: &Provider, outcome: Result<(), String>) -> (r: Result<(), String>)
    ensures
        match outcome {
            Ok(()) => r is Ok,
            Err(e) => r matches Err(m) && m@ == label_of(provider.model()) + ": "@ + e@,
        },
{
    match outcome {
        Ok(()) => Ok(()),
        Err(e) => Err(labelled(provider, e.as_str())),
    }
}

/// How a warm-up's outcome is reported. A one-token budget makes a remote
/// service's answer empty by construction, which the transport calls "model
/// returned no text"; only reachability is being tested, so that error is the
/// success case. Everything else is labelled with the service.
pub fn warm_outcome(provider: &Provider, outcome: Result<(), String>) -> (r: Result<(), String>)
    ensures
        match outcome {
            Ok(()) => r is Ok,
            Err(e) => if !(provider is Local) && starts_with_text(e@, "model returned no text"@) {
                r is Ok
            } else {
                r matches Err(m) && m@ == label_of(provider.model()) + ": "@ + e@
            },
        },
{
    match outcome {
        Ok(()) => Ok(()),
        Err(e) => {
            let text = chars_of(e.as_str());
            let prefix = chars_of("model returned no text");
            if !matches!(provider, Provider::Local { .. }) && starts_with_at(&text, 0, &prefix) {
                assert(text@.subrange(0, prefix@.len() as int) =~= text@.take(prefix@.len() as int));
                Ok(())
            } else {
                proof {
                    if prefix@.len() <= text@.len() {
                        assert(text@.subrange(0, prefix@.len() as int) =~= text@.take(prefix@.len() as int));
                    }
                }
                Err(labelled(provider, e.as_str()))
            }
        },
    }
}

/// The local provider is warm once its model is on disk.
pub fn local_warm(model_exists: bool) -> (r: Result<(), String>)
    ensures
        model_exists ==> r is Ok,
        !model_exists ==> (r matches Err(m) && m@ == "本地模型未下载，请先在设置中选择「本地模型」"@),
{
    if model_exists {
        Ok(())
    } else {
        Err("本地模型未下载，请先在设置中选择「本地模型」".to_owned())
    }
}

/// Four or five renderings of the same input, so roughly five times the budget
/// one translation needed.
pub const MAX_TOKENS: u32 = 4096;

/// The domestic Kimi host; a key issued for the international one is refused
/// here and vice versa, hence the override.
pub const KIMI_BASE_URL: &'static str = "https://api.moonshot.cn/v1";

/// The only Kimi model whose reasoning can be switched off.
pub const KIMI_MODEL: &'static str = "kimi-k2.6";

pub const DEEPSEEK_BASE_URL: &'static str = "https://api.deepseek.com/v1";

/// The non-reasoning DeepSeek model.
pub const DEEPSEEK_MODEL: &'static str = "deepseek-chat";

pub const QWEN_BASE_URL: &'static str = "https://dashscope.aliyuncs.com/compatible-mode/v1";

pub const QWEN_MODEL: &'static str = "qwen3.7-plus";

/// Where to send an OpenAI-compatible request and what to ask for.
pub struct Endpoint {
    pub base_url: String,
    pub model: String,
    pub api_key: String,
    /// The body field the token budget goes in.
    pub max_tokens_field: &'static str,
    /// Provider-specific body fields, merged over the common ones.
    pub extra: Json,
}

/// An object of exactly one member, `key`, whose value satisfies `value`.
pub open spec fn single_member(j: Json, key: Seq<char>, value: spec_fn(Json) -> bool) -> bool {
    j matches Json::Object(members) && members@.len() == 1 && members@[0].0@ == key && value(
        members@[0].1,
    )
}

/// `{"thinking": {"type": "disabled"}}`: left on, Kimi's reasoning comes out of
/// the same budget as the answer and leaves no translation.
pub open spec fn thinking_disabled(j: Json) -> bool {
    single_member(
        j,
        "thinking"@,
        |t: Json| single_member(t, "type"@, |v: Json| v matches Json::Str(s) && s@ == "disabled"@),
    )
}

/// `{"enable_thinking": false}`: Qwen 3.x deliberates by default.
pub open spec fn enable_thinking_false(j: Json) -> bool {
    single_member(j, "enable_thinking"@, |v: Json| v == Json::Bool(false))
}

pub open spec fn empty_object(j: Json) -> bool {
    j matches Json::Object(members) && members@.len() == 0
}

impl Provider {
    /// Where a Kimi request goes and what it asks for: reasoning switched off,
    /// and the budget in `max_completion_tokens`.
    pub fn kimi_endpoint(key: &str, base_url: Option<String>, model: Option<String>) -> (e: Endpoint)
        ensures
            e.base_url@ == or_fallback(opt_text(base_url), KIMI_BASE_URL@),
            e.model@ == or_fallback(opt_text(model), KIMI_MODEL@),
            e.api_key@ == key@,
            e.max_tokens_field@ == "max_completion_tokens"@,
            thinking_disabled(e.extra),
    {
        let inner = Json::Object(vec![("type".to_owned(), Json::Str("disabled".to_owned()))]);
        let extra = Json::Object(vec![("thinking".to_owned(), inner)]);
        Endpoint {
            base_url: env_or(base_url, KIMI_BASE_URL),
            model: env_or(model, KIMI_MODEL),
            api_key: key.to_owned(),
            max_tokens_field: "max_completion_tokens",
            extra,
        }
    }

    /// Where a DeepSeek request goes: `deepseek-chat` is non-reasoning, so there is
    /// nothing extra to switch off.
    pub fn deepseek_endpoint(key: &str, base_url: Option<String>, model: Option<String>) -> (e: Endpoint)
        ensures
            e.base_url@ == or_fallback(opt_text(base_url), DEEPSEEK_BASE_URL@),
            e.model@ == or_fallback(opt_text(model), DEEPSEEK_MODEL@),
            e.api_key@ == key@,
            e.max_tokens_field@ == "max_tokens"@,
            empty_object(e.extra),
    {
        Endpoint {
            base_url: env_or(base_url, DEEPSEEK_BASE_URL),
            model: env_or(model, DEEPSEEK_MODEL),
            api_key: key.to_owned(),
            max_tokens_field: "max_tokens",
            extra: Json::Object(Vec::new()),
        }
    }

    /// Where a Qwen request goes: thinking switched off, and the budget in
    /// `max_tokens`, since Qwen ignores `max_completion_tokens`.
    pub fn qwen_endpoint(key: &str, base_url: Option<String>, model: Option<String>) -> (e: Endpoint)
        ensures
            e.base_url@ == or_fallback(opt_text(base_url), QWEN_BASE_URL@),
            e.model@ == or_fallback(opt_text(model), QWEN_MODEL@),
            e.api_key@ == key@,
            e.max_tokens_field@ == "max_tokens"@,
            enable_thinking_false(e.extra),
    {
        Endpoint {
            base_url: env_or(base_url, QWEN_BASE_URL),
            model: env_or(model, QWEN_MODEL),
            api_key: key.to_owned(),
            max_tokens_field: "max_tokens",
            extra: Json::Object(vec![("enable_thinking".to_owned(), Json::Bool(false))]),
        }
    }
}

/// Whenever the choice is Bedrock it carries the stored AWS profile, whatever
/// name and keys came with it; a key-holding service is chosen only under its
/// own name and with its own non-empty key.
pub proof fn a_bedrock_choice_carries_the_stored_profile(
    provider: Seq<char>,
    kimi_key: Seq<char>,
    deepseek_key: Seq<char>,
    qwen_key: Seq<char>,
    aws_profile: Seq<char>,
)
    ensures
        ({
            let c = choice_of(provider, kimi_key, deepseek_key, qwen_key, aws_profile);
            &&& c is Bedrock || c is Kimi || c is DeepSeek || c is Qwen
            &&& c matches ProviderModel::Bedrock(p) ==> p == aws_profile
            &&& c matches ProviderModel::Kimi(k) ==> provider == "kimi"@ && k == kimi_key && k.len() > 0
            &&& c matches ProviderModel::DeepSeek(k) ==> provider == "deepseek"@ && k == deepseek_key
                && k.len() > 0
            &&& c matches ProviderModel::Qwen(k) ==> provider == "qwen"@ && k == qwen_key && k.len() > 0
            &&& (provider == "kimi"@ && kimi_key.len() > 0) ==> c == ProviderModel::Kimi(kimi_key)
            &&& (provider == "deepseek"@ && deepseek_key.len() > 0) ==> c == ProviderModel::DeepSeek(
                deepseek_key,
            )
            &&& (provider == "qwen"@ && qwen_key.len() > 0) ==> c == ProviderModel::Qwen(qwen_key)
        }),
{
    reveal_strlit("kimi");
    reveal_strlit("deepseek");
    reveal_strlit("qwen");
    assert("kimi"@[0] != "deepseek"@[0] && "kimi"@[0] != "qwen"@[0] && "deepseek"@[0] != "qwen"@[0]);
}

} // verus!
