//! Provider presets and settings of the application.
use vstd::prelude::*;
use crate::verify::lit;

verus! {

/// A preset OpenAI-compatible provider (base URL and models can be changed).
#[derive(Clone, Debug)]
pub struct ProviderPreset {
    pub id: String,
    pub name: String,
    pub base_url: String,
    pub default_model: String,
    pub models: Vec<String>,
    /// OpenAI-compatible chat/completions
    pub api_style: String,
}

pub type PresetView = (Seq<char>, Seq<char>, Seq<char>, Seq<char>, Seq<Seq<char>>, Seq<char>);

pub open spec fn preset_view(p: ProviderPreset) -> PresetView {
    (p.id@, p.name@, p.base_url@, p.default_model@, p.models@.map_values(|m: String| m@), p.api_style@)
}

/// The presets offered, in order.
pub open spec fn presets_spec() -> Seq<PresetView> {
    seq![
        ("xai"@, "SpaceXAI / xAI"@, "https://api.x.ai/v1"@, "grok-4.5"@, seq!["grok-4.5"@, "grok-3"@, "grok-3-mini"@], "openai"@),
        ("openai"@, "OpenAI"@, "https://api.openai.com/v1"@, "gpt-4o"@, seq!["gpt-4o"@, "gpt-4o-mini"@, "gpt-4.1"@, "o3-mini"@], "openai"@),
        ("deepseek"@, "DeepSeek"@, "https://api.deepseek.com/v1"@, "deepseek-chat"@, seq!["deepseek-chat"@, "deepseek-reasoner"@], "openai"@),
        ("siliconflow"@, "硅基流动"@, "https://api.siliconflow.cn/v1"@, "deepseek-ai/DeepSeek-V3"@, seq!["deepseek-ai/DeepSeek-V3"@, "Qwen/Qwen2.5-72B-Instruct"@, "moonshotai/Kimi-K2-Instruct"@], "openai"@),
        ("moonshot"@, "月之暗面 Kimi"@, "https://api.moonshot.cn/v1"@, "moonshot-v1-128k"@, seq!["moonshot-v1-8k"@, "moonshot-v1-32k"@, "moonshot-v1-128k"@], "openai"@),
        ("ollama"@, "本地 Ollama（离线/局域网）"@, "http://127.0.0.1:11434/v1"@, "qwen2.5:7b"@, seq!["qwen2.5:7b"@, "qwen2.5:14b"@, "llama3.2"@, "deepseek-r1:8b"@], "openai"@),
        ("qwen"@, "通义千问（兼容模式）"@, "https://dashscope.aliyuncs.com/compatible-mode/v1"@, "qwen-plus"@, seq!["qwen-plus"@, "qwen-max"@, "qwen-turbo"@], "openai"@),
        ("qianfan"@, "百度千帆（兼容模式）"@, "https://qianfan.baidubce.com/v2"@, "deepseek-v3.2"@, seq!["deepseek-v3.2"@, "deepseek-v4-flash"@, "deepseek-v4-pro"@, "ernie-4.5-turbo-20260402"@, "kimi-k2.6"@, "glm-5"@], "openai"@),
        ("qianfan-coding"@, "百度千帆 Coding Plan"@, "https://qianfan.baidubce.com/v2/coding"@, "qianfan-code-latest"@, seq!["qianfan-code-latest"@, "kimi-k2.5"@, "deepseek-v3.2"@, "glm-5"@, "minimax-m2.5"@, "ernie-4.5-turbo-20260402"@, "deepseek-v4-flash"@, "glm-5.1"@], "openai"@),
        ("qianfan-tokenplan"@, "百度千帆 Token Plan 个人版（Coding Plan 已迁移）"@, "https://qianfan.baidubce.com/v2/tokenplan/personal"@, "deepseek-v4-flash"@, seq!["deepseek-v4-pro"@, "deepseek-v4-flash"@, "deepseek-v4-flash-0731"@, "glm-5.2"@, "glm-5.1"@, "kimi-k2.6"@, "ernie-5.1"@], "openai"@),
        ("custom"@, "自定义（OpenAI 兼容）"@, "https://api.example.com/v1"@, "your-model"@, seq![], "openai"@),
    ]
}

fn preset(id: &str, name: &str, base_url: &str, default_model: &str, models: Vec<&str>) -> (r: ProviderPreset)
    ensures
        preset_view(r) == (id@, name@, base_url@, default_model@, models@.map_values(|m: &str| m@), "openai"@),
{
    let mut ms: Vec<String> = Vec::new();
    let mut k: usize = 0;
    while k < models.len()
        invariant
            k <= models.len(),
            ms.len() == k,
            forall|j: int| 0 <= j < k ==> #[trigger] ms@[j]@ == models@[j]@,
        decreases models.len() - k,
    {
        ms.push(lit(models[k]));
        k = k + 1;
    }
    assert(ms@.map_values(|m: String| m@) =~= models@.map_values(|m: &str| m@));
    ProviderPreset {
        id: lit(id),
        name: lit(name),
        base_url: lit(base_url),
        default_model: lit(default_model),
        models: ms,
        api_style: lit("openai"),
    }
}

/// The provider presets offered in the settings.
pub fn provider_presets() -> (r: Vec<ProviderPreset>)
    ensures
        r@.map_values(|p: ProviderPreset| preset_view(p)) == presets_spec(),
{
    let m0: Vec<&str> = vec!["grok-4.5", "grok-3", "grok-3-mini"];
    assert(m0@.map_values(|m: &str| m@) =~= seq!["grok-4.5"@, "grok-3"@, "grok-3-mini"@]);
    let p0 = preset("xai", "SpaceXAI / xAI", "https://api.x.ai/v1", "grok-4.5", m0);
    let m1: Vec<&str> = vec!["gpt-4o", "gpt-4o-mini", "gpt-4.1", "o3-mini"];
    assert(m1@.map_values(|m: &str| m@) =~= seq!["gpt-4o"@, "gpt-4o-mini"@, "gpt-4.1"@, "o3-mini"@]);
    let p1 = preset("openai", "OpenAI", "https://api.openai.com/v1", "gpt-4o", m1);
    let m2: Vec<&str> = vec!["deepseek-chat", "deepseek-reasoner"];
    assert(m2@.map_values(|m: &str| m@) =~= seq!["deepseek-chat"@, "deepseek-reasoner"@]);
    let p2 = preset("deepseek", "DeepSeek", "https://api.deepseek.com/v1", "deepseek-chat", m2);
    let m3: Vec<&str> = vec!["deepseek-ai/DeepSeek-V3", "Qwen/Qwen2.5-72B-Instruct", "moonshotai/Kimi-K2-Instruct"];
    assert(m3@.map_values(|m: &str| m@) =~= seq!["deepseek-ai/DeepSeek-V3"@, "Qwen/Qwen2.5-72B-Instruct"@, "moonshotai/Kimi-K2-Instruct"@]);
    let p3 = preset("siliconflow", "硅基流动", "https://api.siliconflow.cn/v1", "deepseek-ai/DeepSeek-V3", m3);
    let m4: Vec<&str> = vec!["moonshot-v1-8k", "moonshot-v1-32k", "moonshot-v1-128k"];
    assert(m4@.map_values(|m: &str| m@) =~= seq!["moonshot-v1-8k"@, "moonshot-v1-32k"@, "moonshot-v1-128k"@]);
    let p4 = preset("moonshot", "月之暗面 Kimi", "https://api.moonshot.cn/v1", "moonshot-v1-128k", m4);
    let m5: Vec<&str> = vec!["qwen2.5:7b", "qwen2.5:14b", "llama3.2", "deepseek-r1:8b"];
    assert(m5@.map_values(|m: &str| m@) =~= seq!["qwen2.5:7b"@, "qwen2.5:14b"@, "llama3.2"@, "deepseek-r1:8b"@]);
    let p5 = preset("ollama", "本地 Ollama（离线/局域网）", "http://127.0.0.1:11434/v1", "qwen2.5:7b", m5);
    let m6: Vec<&str> = vec!["qwen-plus", "qwen-max", "qwen-turbo"];
    assert(m6@.map_values(|m: &str| m@) =~= seq!["qwen-plus"@, "qwen-max"@, "qwen-turbo"@]);
    let p6 = preset("qwen", "通义千问（兼容模式）", "https://dashscope.aliyuncs.com/compatible-mode/v1", "qwen-plus", m6);
    let m7: Vec<&str> = vec!["deepseek-v3.2", "deepseek-v4-flash", "deepseek-v4-pro", "ernie-4.5-turbo-20260402", "kimi-k2.6", "glm-5"];
    assert(m7@.map_values(|m: &str| m@) =~= seq!["deepseek-v3.2"@, "deepseek-v4-flash"@, "deepseek-v4-pro"@, "ernie-4.5-turbo-20260402"@, "kimi-k2.6"@, "glm-5"@]);
    let p7 = preset("qianfan", "百度千帆（兼容模式）", "https://qianfan.baidubce.com/v2", "deepseek-v3.2", m7);
    let m8: Vec<&str> = vec!["qianfan-code-latest", "kimi-k2.5", "deepseek-v3.2", "glm-5", "minimax-m2.5", "ernie-4.5-turbo-20260402", "deepseek-v4-flash", "glm-5.1"];
    assert(m8@.map_values(|m: &str| m@) =~= seq!["qianfan-code-latest"@, "kimi-k2.5"@, "deepseek-v3.2"@, "glm-5"@, "minimax-m2.5"@, "ernie-4.5-turbo-20260402"@, "deepseek-v4-flash"@, "glm-5.1"@]);
    let p8 = preset("qianfan-coding", "百度千帆 Coding Plan", "https://qianfan.baidubce.com/v2/coding", "qianfan-code-latest", m8);
    let m9: Vec<&str> = vec!["deepseek-v4-pro", "deepseek-v4-flash", "deepseek-v4-flash-0731", "glm-5.2", "glm-5.1", "kimi-k2.6", "ernie-5.1"];
    assert(m9@.map_values(|m: &str| m@) =~= seq!["deepseek-v4-pro"@, "deepseek-v4-flash"@, "deepseek-v4-flash-0731"@, "glm-5.2"@, "glm-5.1"@, "kimi-k2.6"@, "ernie-5.1"@]);
    let p9 = preset("qianfan-tokenplan", "百度千帆 Token Plan 个人版（Coding Plan 已迁移）", "https://qianfan.baidubce.com/v2/tokenplan/personal", "deepseek-v4-flash", m9);
    let m10: Vec<&str> = vec![];
    assert(m10@.map_values(|m: &str| m@) =~= seq![]);
    let p10 = preset("custom", "自定义（OpenAI 兼容）", "https://api.example.com/v1", "your-model", m10);
    let r = vec![p0, p1, p2, p3, p4, p5, p6, p7, p8, p9, p10];
    assert(r@.map_values(|p: ProviderPreset| preset_view(p)) =~= presets_spec());
    r
}


/// Normalizes an API base as it is stored in the settings.
pub fn normalize_api_base(raw: &str) -> (r: String)
    ensures
        r@ == crate::ai::normalize_api_base_spec(raw@),
{
    crate::ai::normalize_api_base(raw)
}

pub fn default_subject() -> (r: String)
    ensures
        r@ == "math"@,
{
    lit("math")
}

pub fn default_edition() -> (r: String)
    ensures
        r@ == "beishida"@,
{
    lit("beishida")
}

pub fn default_grade() -> (r: u8)
    ensures
        r == 3,
{
    3
}

pub fn default_semester() -> (r: String)
    ensures
        r@ == "shang"@,
{
    lit("shang")
}

pub fn default_exam_type() -> (r: String)
    ensures
        r@ == "unit"@,
{
    lit("unit")
}

pub fn default_difficulty() -> (r: String)
    ensures
        r@ == "标准"@,
{
    lit("标准")
}

pub fn default_true() -> (r: bool)
    ensures
        r,
{
    true
}

pub fn default_history_max() -> (r: u32)
    ensures
        r == 30,
{
    30
}

pub fn default_export_mode() -> (r: String)
    ensures
        r@ == "with_answers"@,
{
    lit("with_answers")
}

pub fn default_filename_pattern() -> (r: String)
    ensures
        r@ == "{school}{grade}年级-{subject}-{title}-{date}"@,
{
    lit("{school}{grade}年级-{subject}-{title}-{date}")
}

pub open spec fn is_blank(s: Seq<char>) -> bool {
    crate::text::trim(s).len() == 0
}

pub fn is_blank_str(s: &str) -> (r: bool)
    ensures
        r == is_blank(s@),
{
    let t = crate::text::trim_str(s);
    t.unicode_len() == 0
}

/// The API key kept for this process after it was saved or read, so that
/// requests can use it even when the system key store cannot be read for a
/// moment. A blank key is never kept.
pub struct ApiKeyCache {
    key: Option<String>,
}

pub open spec fn opt_str_view(o: Option<String>) -> Option<Seq<char>> {
    match o {
        Some(s) => Some(s@),
        None => None,
    }
}

/// A key as it would be kept: blank keys are dropped.
pub open spec fn kept(o: Option<Seq<char>>) -> Option<Seq<char>> {
    match o {
        Some(k) => if is_blank(k) { None } else { Some(k) },
        None => None,
    }
}

/// How a key read from the key store is taken over.
pub open spec fn loaded_view(r: Result<Option<String>, String>) -> Result<Option<Seq<char>>, Seq<char>> {
    match r {
        Ok(o) => Ok(opt_str_view(o)),
        Err(e) => Err(e@),
    }
}

fn copy_opt(o: &Option<String>) -> (r: Option<String>)
    ensures
        opt_str_view(r) == opt_str_view(*o),
{
    match o {
        Some(s) => Some(s.clone()),
        None => None,
    }
}

/// What reading the settings decides about the API key: the key to use,
/// whether one is configured, and whether the key that was still stored in the
/// settings file must be moved to the key store.
pub struct LoadedKey {
    pub api_key: String,
    pub configured: bool,
    pub migrate: bool,
}

impl ApiKeyCache {
    pub closed spec fn view(&self) -> Option<Seq<char>> {
        opt_str_view(self.key)
    }

    #[verifier::type_invariant]
    closed spec fn wf(self) -> bool {
        match self.key {
            Some(k) => !is_blank(k@),
            None => true,
        }
    }

    pub fn new() -> (r: ApiKeyCache)
        ensures
            r.view() is None,
    {
        ApiKeyCache { key: None }
    }

    /// The kept key.
    pub fn cached(&self) -> (r: Option<String>)
        ensures
            opt_str_view(r) == self.view(),
            r matches Some(k) ==> !is_blank(k@),
    {
        proof {
            use_type_invariant(self);
        }
        copy_opt(&self.key)
    }

    /// Keeps `api_key`, or nothing when it is absent or blank.
    pub fn remember(&mut self, api_key: Option<String>)
        ensures
            final(self).view() == kept(opt_str_view(api_key)),
    {
        let k = match api_key {
            Some(s) => if is_blank_str(s.as_str()) { None } else { Some(s) },
            None => None,
        };
        self.key = k;
    }

    /// Forgets the kept key.
    pub fn clear_api_key(&mut self)
        ensures
            final(self).view() is None,
    {
        self.key = None;
    }

    /// The key to send with requests when the page did not send one: the kept
    /// key if there is one; otherwise what the key store gave (`stored`), blank
    /// keys dropped, which is then kept.
    pub fn load_saved_api_key(&mut self, stored: Result<Option<String>, String>) -> (r: Result<Option<String>, String>)
        ensures
            old(self).view() is Some ==> loaded_view(r) == Ok::<Option<Seq<char>>, Seq<char>>(old(self).view())
                && final(self).view() == old(self).view(),
            old(self).view() is None ==> match loaded_view(stored) {
                Ok(o) => loaded_view(r) == Ok::<Option<Seq<char>>, Seq<char>>(kept(o)) && final(self).view() == kept(o),
                Err(e) => loaded_view(r) == Err::<Option<Seq<char>>, Seq<char>>(e) && final(self).view() is None,
            },
    {
        if let Some(k) = self.cached() {
            return Ok(Some(k));
        }
        match stored {
            Err(e) => Err(e),
            Ok(o) => {
                let v = match o {
                    Some(s) => if is_blank_str(s.as_str()) { None } else { Some(s) },
                    None => None,
                };
                self.remember(copy_opt(&v));
                Ok(v)
            },
        }
    }

    /// Decides the key after reading the settings: the key from the key store
    /// when there is one; else the key still found in the settings file (to be
    /// moved to the key store); else the kept key; else none.
    pub fn resolve_loaded_key(&mut self, file_key: &str, loaded: Result<Option<String>, String>) -> (r: LoadedKey)
        ensures
            match loaded_view(loaded) {
                Ok(Some(k)) => r.api_key@ == k && r.configured && !r.migrate && final(self).view() == kept(Some(k)),
                Ok(None) => if !is_blank(file_key@) {
                    r.api_key@ == file_key@ && r.configured && r.migrate && final(self).view() == Some(file_key@)
                } else {
                    !r.migrate && final(self).view() == old(self).view() && match old(self).view() {
                        Some(k) => r.api_key@ == k && r.configured,
                        None => r.api_key@ == Seq::<char>::empty() && !r.configured,
                    }
                },
                Err(_) => !r.migrate && final(self).view() == old(self).view() && match old(self).view() {
                    Some(k) => r.api_key@ == k && r.configured,
                    None => r.api_key@ == Seq::<char>::empty() && !r.configured,
                },
            },
    {
        match loaded {
            Ok(Some(k)) => {
                self.remember(Some(k.clone()));
                LoadedKey { api_key: k, configured: true, migrate: false }
            },
            Ok(None) => {
                if !is_blank_str(file_key) {
                    self.remember(Some(lit(file_key)));
                    LoadedKey { api_key: lit(file_key), configured: true, migrate: true }
                } else {
                    self.cached_loaded()
                }
            },
            Err(_) => self.cached_loaded(),
        }
    }

    fn cached_loaded(&self) -> (r: LoadedKey)
        ensures
            !r.migrate,
            match self.view() {
                Some(k) => r.api_key@ == k && r.configured,
                None => r.api_key@ == Seq::<char>::empty() && !r.configured,
            },
    {
        match self.cached() {
            Some(k) => LoadedKey { api_key: k, configured: true, migrate: false },
            None => LoadedKey { api_key: String::new(), configured: false, migrate: false },
        }
    }

    /// Whether the settings being saved have a key: a non-blank key that was
    /// sent (it is kept, trimmed, after the caller stored it); otherwise a
    /// non-blank key in the key store (`loaded`, which is then kept) or a kept key.
    pub fn saved_key_configured(&mut self, sent_key: &str, loaded: Option<Result<Option<String>, String>>) -> (r: bool)
        ensures
            !is_blank(sent_key@) ==> r && final(self).view() == Some(crate::text::trim(sent_key@)),
            is_blank(sent_key@) ==> match loaded {
                Some(Ok(Some(k))) => if !is_blank(k@) {
                    r && final(self).view() == Some(k@)
                } else {
                    r == (old(self).view() is Some) && final(self).view() == old(self).view()
                },
                _ => r == (old(self).view() is Some) && final(self).view() == old(self).view(),
            },
    {
        if !is_blank_str(sent_key) {
            let t = crate::text::trim_str(sent_key);
            proof {
                assert(crate::text::trim(crate::text::trim(sent_key@)) == crate::text::trim(sent_key@)) by {
                    crate::text::lemma_trim_idempotent(sent_key@);
                }
            }
            self.remember(Some(t));
            return true;
        }
        match loaded {
            Some(Ok(Some(k))) => {
                if !is_blank_str(k.as_str()) {
                    self.remember(Some(k));
                    return true;
                }
            },
            _ => {},
        }
        let c = self.cached();
        c.is_some()
    }
}

} // verus!
