//! How the language model is reached, from settings.

use crate::chat::{clone_opt, clone_strings};
use crate::numbers::{opt_str, setting, setting_u32, setting_usize};
use crate::text::{folds_to_word, is_word, trim, trimmed, views};
use crate::tool::opt_text;
use vstd::prelude::*;

verus! {

broadcast use vstd::string::group_string_axioms;

/// The settings that the configuration is made from, as they are found.
#[derive(Debug, Default)]
pub struct LlmSettings {
    pub llm_api_key: Option<String>,
    pub openai_api_key: Option<String>,
    pub model: Option<String>,
    pub base_url: Option<String>,
    pub max_history: Option<String>,
    pub max_tokens: Option<String>,
    pub thinking: Option<String>,
    pub image_model: Option<String>,
    pub image_base_url: Option<String>,
    pub image_api_key: Option<String>,
    pub video_model: Option<String>,
    pub video_base_url: Option<String>,
    pub video_api_key: Option<String>,
    /// The text that says who the assistant is, where there is one.
    pub persona: Option<String>,
    /// The extra prompts.
    pub jailbreak_prompts: Vec<String>,
}

/// How the language model is reached.
#[derive(Debug)]
pub struct LlmConfig {
    pub api_key: String,
    pub model: String,
    pub base_url: String,
    pub system_prompt: String,
    pub max_history_turns: usize,
    pub max_tokens: u32,
    pub thinking: bool,
    pub jailbreak_prompts: Vec<String>,
    pub image_model: String,
    pub image_base_url: String,
    pub image_api_key: String,
    pub video_model: String,
    pub video_base_url: String,
    pub video_api_key: String,
}

/// The model of an [`LlmConfig`].
pub ghost struct LlmConfigView {
    pub api_key: Seq<char>,
    pub model: Seq<char>,
    pub base_url: Seq<char>,
    pub system_prompt: Seq<char>,
    pub max_history_turns: usize,
    pub max_tokens: u32,
    pub thinking: bool,
    pub jailbreak_prompts: Seq<Seq<char>>,
    pub image_model: Seq<char>,
    pub image_base_url: Seq<char>,
    pub image_api_key: Seq<char>,
    pub video_model: Seq<char>,
    pub video_base_url: Seq<char>,
    pub video_api_key: Seq<char>,
}

impl View for LlmConfig {
    type V = LlmConfigView;

    open spec fn view(&self) -> LlmConfigView {
        LlmConfigView {
            api_key: self.api_key@,
            model: self.model@,
            base_url: self.base_url@,
            system_prompt: self.system_prompt@,
            max_history_turns: self.max_history_turns,
            max_tokens: self.max_tokens,
            thinking: self.thinking,
            jailbreak_prompts: views(self.jailbreak_prompts@),
            image_model: self.image_model@,
            image_base_url: self.image_base_url@,
            image_api_key: self.image_api_key@,
            video_model: self.video_model@,
            video_base_url: self.video_base_url@,
            video_api_key: self.video_api_key@,
        }
    }
}

impl Clone for LlmConfig {
    fn clone(&self) -> (r: Self)
        ensures
            r@ == self@,
    {
        LlmConfig {
            api_key: self.api_key.clone(),
            model: self.model.clone(),
            base_url: self.base_url.clone(),
            system_prompt: self.system_prompt.clone(),
            max_history_turns: self.max_history_turns,
            max_tokens: self.max_tokens,
            thinking: self.thinking,
            jailbreak_prompts: clone_strings(&self.jailbreak_prompts),
            image_model: self.image_model.clone(),
            image_base_url: self.image_base_url.clone(),
            image_api_key: self.image_api_key.clone(),
            video_model: self.video_model.clone(),
            video_base_url: self.video_base_url.clone(),
            video_api_key: self.video_api_key.clone(),
        }
    }
}

/// A setting, or the default where it is not there.
pub open spec fn text_setting(o: Option<String>, default: Seq<char>) -> Seq<char> {
    match o {
        Some(s) => s@,
        None => default,
    }
}

/// The key: the one for this program, else the general one.
pub open spec fn settings_key(s: LlmSettings) -> Option<Seq<char>> {
    match s.llm_api_key {
        Some(k) => Some(k@),
        None => opt_text(s.openai_api_key),
    }
}

/// Whether a setting switches something on.
pub open spec fn is_on(o: Option<String>) -> bool {
    o matches Some(s) && (folds_to_word(s@, "enabled"@) || folds_to_word(s@, "true"@)
        || folds_to_word(s@, "1"@))
}

/// What the assistant is told to be: the persona without the white space around it, where there is
/// one that is not blank, else the general prompt.
pub open spec fn settings_prompt(o: Option<String>) -> Seq<char> {
    match o {
        Some(p) if trim(p@).len() > 0 => trim(p@),
        _ => "You are a helpful AI assistant. Reply in the user's language."@,
    }
}

/// The configuration that settings with a key give. Pictures and films are sent where text is,
/// unless they have settings of their own.
pub open spec fn settings_config(s: LlmSettings, key: Seq<char>) -> LlmConfigView {
    let base_url = text_setting(s.base_url, "https://api.deepseek.com/v1"@);
    LlmConfigView {
        api_key: key,
        model: text_setting(s.model, "deepseek-chat"@),
        base_url,
        system_prompt: settings_prompt(s.persona),
        max_history_turns: setting(opt_text(s.max_history), usize::MAX as nat, 20) as usize,
        max_tokens: setting(opt_text(s.max_tokens), u32::MAX as nat, 384000) as u32,
        thinking: is_on(s.thinking),
        jailbreak_prompts: views(s.jailbreak_prompts@),
        image_model: text_setting(s.image_model, "mimo-v2.5"@),
        image_base_url: text_setting(s.image_base_url, base_url),
        image_api_key: text_setting(s.image_api_key, key),
        video_model: text_setting(s.video_model, "mimo-v2.5"@),
        video_base_url: text_setting(s.video_base_url, base_url),
        video_api_key: text_setting(s.video_api_key, key),
    }
}

fn or_default(o: Option<String>, default: &str) -> (r: String)
    ensures
        r@ == text_setting(o, default@),
{
    match o {
        Some(s) => s,
        None => default.to_owned(),
    }
}

/// A slice of an optional string.
pub fn opt_slice<'a>(o: &'a Option<String>) -> (r: Option<&'a str>)
    ensures
        opt_str(r) == opt_text(*o),
{
    match o {
        Some(s) => Some(s.as_str()),
        None => None,
    }
}

fn switched_on(o: &Option<String>) -> (r: bool)
    ensures
        r == is_on(*o),
{
    match o {
        Some(s) => is_word(s.as_str(), "enabled") || is_word(s.as_str(), "true") || is_word(
            s.as_str(),
            "1",
        ),
        None => false,
    }
}

fn prompt_of(o: &Option<String>) -> (r: String)
    ensures
        r@ == settings_prompt(*o),
{
    match o {
        Some(p) => {
            let t = trimmed(p.as_str());
            if !t.as_str().is_empty() {
                return t;
            }
        },
        None => {},
    }
    "You are a helpful AI assistant. Reply in the user's language.".to_owned()
}

impl LlmConfig {
    /// Makes the configuration from settings. Without a key there is none.
    pub fn from_settings(s: LlmSettings) -> (r: Result<LlmConfig, String>)
        ensures
            match (r, settings_key(s)) {
                (Ok(c), Some(key)) => c@ == settings_config(s, key),
                (Err(e), None) => e@ == "LLM_API_KEY or OPENAI_API_KEY not set"@,
                _ => false,
            },
    {
        let key = match clone_opt(&s.llm_api_key) {
            Some(k) => k,
            None => match clone_opt(&s.openai_api_key) {
                Some(k) => k,
                None => return Err("LLM_API_KEY or OPENAI_API_KEY not set".to_owned()),
            },
        };
        let system_prompt = prompt_of(&s.persona);
        let max_history_turns = setting_usize(opt_slice(&s.max_history), 20);
        let max_tokens = setting_u32(opt_slice(&s.max_tokens), 384000);
        let thinking = switched_on(&s.thinking);
        let base_url = or_default(s.base_url, "https://api.deepseek.com/v1");
        Ok(
            LlmConfig {
                model: or_default(s.model, "deepseek-chat"),
                system_prompt,
                max_history_turns,
                max_tokens,
                thinking,
                jailbreak_prompts: s.jailbreak_prompts,
                image_model: or_default(s.image_model, "mimo-v2.5"),
                image_base_url: or_default(s.image_base_url, base_url.as_str()),
                image_api_key: or_default(s.image_api_key, key.as_str()),
                video_model: or_default(s.video_model, "mimo-v2.5"),
                video_base_url: or_default(s.video_base_url, base_url.as_str()),
                video_api_key: or_default(s.video_api_key, key.as_str()),
                api_key: key,
                base_url,
            },
        )
    }

    /// The extra prompt at the index.
    pub fn jailbreak_at(&self, index: usize) -> (r: Option<&str>)
        ensures
            match r {
                Some(p) => index < self@.jailbreak_prompts.len() && p@
                    == self@.jailbreak_prompts[index as int],
                None => index >= self@.jailbreak_prompts.len(),
            },
    {
        if index < self.jailbreak_prompts.len() {
            Some(self.jailbreak_prompts[index].as_str())
        } else {
            None
        }
    }

    /// How many extra prompts there are.
    pub fn jailbreak_count(&self) -> (r: usize)
        ensures
            r == self@.jailbreak_prompts.len(),
    {
        self.jailbreak_prompts.len()
    }
}

} // verus!
