//! Configuration: the provider settings and the session settings, with
//! defaults and command-line overrides.
//!
//! A temperature is held by the bits of its `f32`.
use vstd::prelude::*;

use crate::text::{append_str, chars_of, string_of};

verus! {

#[derive(Debug, Clone)]
pub struct ProviderConfig {
    pub name: String,
    pub model: String,
    pub url: String,
    /// The bits of the sampling temperature (`f32::to_bits`).
    pub temperature_bits: Option<u32>,
    pub max_tokens: Option<u32>,
    pub summary_model: Option<String>,
    pub api_key: Option<String>,
    pub think: bool,
}

pub fn default_provider_name() -> (res: String)
    ensures
        res@ == "ollama"@,
{
    string_of(&chars_of("ollama"))
}

pub fn default_model() -> (res: String)
    ensures
        res@ == "llama3.2"@,
{
    string_of(&chars_of("llama3.2"))
}

pub fn default_url() -> (res: String)
    ensures
        res@ == "http://localhost:11434"@,
{
    string_of(&chars_of("http://localhost:11434"))
}

impl Default for ProviderConfig {
    fn default() -> (res: Self)
        ensures
            res@ == ProviderView::defaults(),
    {
        ProviderConfig {
            name: default_provider_name(),
            model: default_model(),
            url: default_url(),
            temperature_bits: None,
            max_tokens: None,
            summary_model: None,
            api_key: None,
            think: false,
        }
    }
}

/// What a provider configuration holds, its text taken as characters.
pub struct ProviderView {
    pub name: Seq<char>,
    pub model: Seq<char>,
    pub url: Seq<char>,
    pub temperature_bits: Option<u32>,
    pub max_tokens: Option<u32>,
    pub summary_model: Option<Seq<char>>,
    pub api_key: Option<Seq<char>>,
    pub think: bool,
}

impl ProviderView {
    pub open spec fn defaults() -> ProviderView {
        ProviderView {
            name: "ollama"@,
            model: "llama3.2"@,
            url: "http://localhost:11434"@,
            temperature_bits: None,
            max_tokens: None,
            summary_model: None,
            api_key: None,
            think: false,
        }
    }
}

pub open spec fn opt_view(o: Option<String>) -> Option<Seq<char>> {
    match o {
        Some(s) => Some(s@),
        None => None,
    }
}

impl View for ProviderConfig {
    type V = ProviderView;

    open spec fn view(&self) -> ProviderView {
        ProviderView {
            name: self.name@,
            model: self.model@,
            url: self.url@,
            temperature_bits: self.temperature_bits,
            max_tokens: self.max_tokens,
            summary_model: opt_view(self.summary_model),
            api_key: opt_view(self.api_key),
            think: self.think,
        }
    }
}

#[derive(Debug, Clone)]
pub struct Config {
    pub provider: ProviderConfig,
    pub db_path: Option<String>,
    pub workdir: Option<String>,
    pub context_messages: u32,
    pub summarize: bool,
}

/// What a configuration holds, its text taken as characters.
pub struct ConfigView {
    pub provider: ProviderView,
    pub db_path: Option<Seq<char>>,
    pub workdir: Option<Seq<char>>,
    pub context_messages: u32,
    pub summarize: bool,
}

impl ConfigView {
    pub open spec fn defaults() -> ConfigView {
        ConfigView {
            provider: ProviderView::defaults(),
            db_path: None,
            workdir: None,
            context_messages: 3,
            summarize: true,
        }
    }
}

impl View for Config {
    type V = ConfigView;

    open spec fn view(&self) -> ConfigView {
        ConfigView {
            provider: self.provider@,
            db_path: opt_view(self.db_path),
            workdir: opt_view(self.workdir),
            context_messages: self.context_messages,
            summarize: self.summarize,
        }
    }
}

pub fn default_context_messages() -> (res: u32)
    ensures
        res == 3,
{
    3
}

pub fn default_summarize() -> (res: bool)
    ensures
        res,
{
    true
}

impl Default for Config {
    fn default() -> (res: Self)
        ensures
            res@ == ConfigView::defaults(),
    {
        Config {
            provider: ProviderConfig::default(),
            db_path: None,
            workdir: None,
            context_messages: default_context_messages(),
            summarize: default_summarize(),
        }
    }
}

/// `current` replaced by `new` when there is one.
pub open spec fn override_with<T>(current: T, new: Option<T>) -> T {
    match new {
        Some(v) => v,
        None => current,
    }
}

/// The configuration after the command-line values are applied: each value
/// given replaces the configured one; `no_summarize` turns summarization
/// off and `think` turns thinking on, neither turns anything back.
pub open spec fn merged(
    c: ConfigView,
    provider_name: Option<Seq<char>>,
    model: Option<Seq<char>>,
    url: Option<Seq<char>>,
    temperature_bits: Option<u32>,
    api_key: Option<Seq<char>>,
    db_path: Option<Seq<char>>,
    workdir: Option<Seq<char>>,
    context_messages: Option<u32>,
    no_summarize: bool,
    think: bool,
    max_tokens: Option<u32>,
) -> ConfigView {
    ConfigView {
        provider: ProviderView {
            name: override_with(c.provider.name, provider_name),
            model: override_with(c.provider.model, model),
            url: override_with(c.provider.url, url),
            temperature_bits: if temperature_bits is Some {
                temperature_bits
            } else {
                c.provider.temperature_bits
            },
            max_tokens: if max_tokens is Some {
                max_tokens
            } else {
                c.provider.max_tokens
            },
            summary_model: c.provider.summary_model,
            api_key: if api_key is Some {
                api_key
            } else {
                c.provider.api_key
            },
            think: c.provider.think || think,
        },
        db_path: if db_path is Some {
            db_path
        } else {
            c.db_path
        },
        workdir: if workdir is Some {
            workdir
        } else {
            c.workdir
        },
        context_messages: override_with(c.context_messages, context_messages),
        summarize: c.summarize && !no_summarize,
    }
}

/// Whether a path is absolute: on Unix, whether it begins at the root.
pub open spec fn is_absolute_path(p: Seq<char>) -> bool {
    p.len() > 0 && p[0] == '/'
}

/// `base` joined with `p` as `Path::join` does on Unix: an absolute `p`
/// replaces `base`; otherwise a `/` is put between them when `base` is not
/// empty and does not already end with one.
pub open spec fn join_path(base: Seq<char>, p: Seq<char>) -> Seq<char> {
    if is_absolute_path(p) {
        p
    } else if base.len() > 0 && base.last() != '/' {
        base + seq!['/'] + p
    } else {
        base + p
    }
}

/// Whether `p` is absolute.
pub fn path_is_absolute(p: &str) -> (res: bool)
    ensures
        res == is_absolute_path(p@),
{
    let cs = chars_of(p);
    cs.len() > 0 && cs[0] == '/'
}

/// `base` joined with `p`.
pub fn path_join(base: &str, p: &str) -> (res: String)
    ensures
        res@ == join_path(base@, p@),
{
    if path_is_absolute(p) {
        return string_of(&chars_of(p));
    }
    let mut out = chars_of(base);
    let n = out.len();
    if n > 0 && out[n - 1] != '/' {
        out.push('/');
    }
    append_str(&mut out, p);
    string_of(&out)
}

impl Config {
    /// Applies the command-line values over the configured ones.
    pub fn merge_cli_overrides(
        self,
        provider_name: Option<String>,
        model: Option<String>,
        url: Option<String>,
        temperature_bits: Option<u32>,
        api_key: Option<String>,
        db_path: Option<String>,
        workdir: Option<String>,
        context_messages: Option<u32>,
        no_summarize: bool,
        think: bool,
        max_tokens: Option<u32>,
    ) -> (res: Self)
        ensures
            res@ == merged(
                self@,
                opt_view(provider_name),
                opt_view(model),
                opt_view(url),
                temperature_bits,
                opt_view(api_key),
                opt_view(db_path),
                opt_view(workdir),
                context_messages,
                no_summarize,
                think,
                max_tokens,
            ),
    {
        let mut c = self;
        if let Some(n) = provider_name {
            c.provider.name = n;
        }
        if let Some(m) = model {
            c.provider.model = m;
        }
        if let Some(u) = url {
            c.provider.url = u;
        }
        if let Some(t) = temperature_bits {
            c.provider.temperature_bits = Some(t);
        }
        if let Some(k) = api_key {
            c.provider.api_key = Some(k);
        }
        if let Some(d) = db_path {
            c.db_path = Some(d);
        }
        if let Some(w) = workdir {
            c.workdir = Some(w);
        }
        if let Some(cm) = context_messages {
            c.context_messages = cm;
        }
        if no_summarize {
            c.summarize = false;
        }
        if think {
            c.provider.think = true;
        }
        if let Some(mt) = max_tokens {
            c.provider.max_tokens = Some(mt);
        }
        c
    }

    /// The working directory made absolute against `current_dir` (the
    /// process's current directory; empty when it cannot be read).
    pub fn resolved_workdir(&self, current_dir: &str) -> (res: Option<String>)
        ensures
            match self.workdir {
                Some(w) => res matches Some(r) && r@ == join_path(current_dir@, w@),
                None => res is None,
            },
    {
        match &self.workdir {
            Some(w) => Some(path_join(current_dir, w.as_str())),
            None => None,
        }
    }
}

/// The command-line values, when none is given, leave the configuration as
/// it is.
pub proof fn lemma_merge_without_overrides(c: ConfigView)
    ensures
        merged(c, None, None, None, None, None, None, None, None, false, false, None) == c,
{
}

/// A value given on the command line is the value that takes effect.
pub proof fn lemma_cli_values_take_effect(
    c: ConfigView,
    provider_name: Seq<char>,
    model: Seq<char>,
    url: Seq<char>,
    context_messages: u32,
)
    ensures
        ({
            let m = merged(
                c,
                Some(provider_name),
                Some(model),
                Some(url),
                None,
                None,
                None,
                None,
                Some(context_messages),
                true,
                true,
                None,
            );
            &&& m.provider.name == provider_name
            &&& m.provider.model == model
            &&& m.provider.url == url
            &&& m.context_messages == context_messages
            &&& !m.summarize
            &&& m.provider.think
        }),
{
}

} // verus!
