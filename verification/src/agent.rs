//! The settings an agent is built with: what its builder was told, and what
//! the agent runs with once the defaults are filled in.
//!
//! A temperature is held by the bits of its `f32`.
use vstd::prelude::*;

use crate::text::{chars_of, string_of};

verus! {

/// What an agent builder has been told so far.
#[derive(Debug, Clone)]
pub struct AgentOptions {
    pub model: Option<String>,
    pub system_prompt: Option<String>,
    pub temperature_bits: Option<u32>,
    pub max_tokens: Option<u32>,
    pub summarize: bool,
    pub context_messages: u32,
    pub summary_model: Option<String>,
    pub think: bool,
}

/// The settings an agent runs with.
#[derive(Debug, Clone)]
pub struct AgentSettings {
    pub model: String,
    pub system_prompt: Option<String>,
    pub temperature_bits: Option<u32>,
    pub max_tokens: Option<u32>,
    pub summarize: bool,
    pub context_messages: u32,
    pub summary_model: String,
    pub think: bool,
}

/// The model an agent talks to when none was named.
pub open spec fn fallback_model() -> Seq<char> {
    "llama3.2"@
}

impl AgentOptions {
    /// Nothing chosen yet: summarizing on, three messages of context,
    /// thinking off.
    pub fn new() -> (res: Self)
        ensures
            res.model is None,
            res.system_prompt is None,
            res.temperature_bits is None,
            res.max_tokens is None,
            res.summarize,
            res.context_messages == 3,
            res.summary_model is None,
            !res.think,
    {
        AgentOptions {
            model: None,
            system_prompt: None,
            temperature_bits: None,
            max_tokens: None,
            summarize: true,
            context_messages: 3,
            summary_model: None,
            think: false,
        }
    }

    pub fn model(self, model: String) -> (res: Self)
        ensures
            res == (AgentOptions { model: Some(model), ..self }),
    {
        AgentOptions { model: Some(model), ..self }
    }

    pub fn system_prompt(self, prompt: String) -> (res: Self)
        ensures
            res == (AgentOptions { system_prompt: Some(prompt), ..self }),
    {
        AgentOptions { system_prompt: Some(prompt), ..self }
    }

    /// Sets the temperature, given by the bits of its `f32`.
    pub fn temperature(self, bits: u32) -> (res: Self)
        ensures
            res == (AgentOptions { temperature_bits: Some(bits), ..self }),
    {
        AgentOptions { temperature_bits: Some(bits), ..self }
    }

    pub fn max_tokens(self, max_tokens: u32) -> (res: Self)
        ensures
            res == (AgentOptions { max_tokens: Some(max_tokens), ..self }),
    {
        AgentOptions { max_tokens: Some(max_tokens), ..self }
    }

    pub fn summarize(self, enabled: bool) -> (res: Self)
        ensures
            res == (AgentOptions { summarize: enabled, ..self }),
    {
        AgentOptions { summarize: enabled, ..self }
    }

    pub fn context_messages(self, n: u32) -> (res: Self)
        ensures
            res == (AgentOptions { context_messages: n, ..self }),
    {
        AgentOptions { context_messages: n, ..self }
    }

    pub fn summary_model(self, model: String) -> (res: Self)
        ensures
            res == (AgentOptions { summary_model: Some(model), ..self }),
    {
        AgentOptions { summary_model: Some(model), ..self }
    }

    pub fn think(self, enabled: bool) -> (res: Self)
        ensures
            res == (AgentOptions { think: enabled, ..self }),
    {
        AgentOptions { think: enabled, ..self }
    }

    /// The settings: the model falls back to `llama3.2`, the summary model
    /// to the model; everything else is taken as it was set.
    pub fn build(self) -> (res: AgentSettings)
        ensures
            res.model@ == (match self.model {
                Some(m) => m@,
                None => fallback_model(),
            }),
            res.summary_model@ == (match self.summary_model {
                Some(m) => m@,
                None => res.model@,
            }),
            res.system_prompt == self.system_prompt,
            res.temperature_bits == self.temperature_bits,
            res.max_tokens == self.max_tokens,
            res.summarize == self.summarize,
            res.context_messages == self.context_messages,
            res.think == self.think,
    {
        let model = match self.model {
            Some(m) => m,
            None => string_of(&chars_of("llama3.2")),
        };
        let summary_model = match self.summary_model {
            Some(m) => m,
            None => string_of(&chars_of(model.as_str())),
        };
        AgentSettings {
            model,
            system_prompt: self.system_prompt,
            temperature_bits: self.temperature_bits,
            max_tokens: self.max_tokens,
            summarize: self.summarize,
            context_messages: self.context_messages,
            summary_model,
            think: self.think,
        }
    }
}

} // verus!
