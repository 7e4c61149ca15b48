//! Settings, read from environment variables.

use vstd::prelude::*;
use crate::models;
use crate::numbers;
use crate::text;

verus! {

/// All settings of the program.
pub struct AppConfig {
    pub db_path: String,
    pub openai: OpenAiConfig,
    pub elevenlabs: ElevenLabsConfig,
    pub tiktok: TikTokScraperConfig,
}

/// How the OpenAI API is reached.
pub struct OpenAiConfig {
    pub api_key: String,
    pub model: String,
    pub base_url: String,
    pub max_slides: usize,
}

/// How the ElevenLabs API is reached.
pub struct ElevenLabsConfig {
    pub api_key: String,
    pub model_id: String,
    pub base_url: String,
}

/// Where profiles come from.
pub struct TikTokScraperConfig {
    pub provider: TikTokScraperProvider,
    pub timeout_secs: u64,
}

/// A source of profiles.
pub enum TikTokScraperProvider {
    SocialProfileScraper(SocialProfileScraperConfig),
    /// The path of a file, or of a directory of files.
    Fixture(String),
}

/// How the social profile scraper is reached.
pub struct SocialProfileScraperConfig {
    pub base_url: String,
    pub region: Option<String>,
    pub max_following_pages: usize,
}

/// Why the settings are not complete.
pub enum ConfigError {
    /// The named variable is not set.
    Missing(String),
    /// The named variable holds nothing but white space.
    Empty(String),
}

impl ConfigError {
    /// The error in words.
    pub fn message(&self) -> (r: String)
        ensures
            match self {
                ConfigError::Missing(name) => r@ == "missing required environment variable "@
                    + name@,
                ConfigError::Empty(name) => r@ == "environment variable "@ + name@ + " is empty"@,
            },
    {
        match self {
            ConfigError::Missing(name) => text::concat(
                "missing required environment variable ",
                name.as_str(),
            ),
            ConfigError::Empty(name) => {
                let mut r: String = "environment variable ".to_string();
                r.append(name.as_str());
                r.append(" is empty");
                r
            },
        }
    }
}

// ---------------------------------------------------------------------------
// Variables
// ---------------------------------------------------------------------------
/// The names and values of the environment variables.
pub struct Environment {
    pub variables: Vec<(String, String)>,
}

/// The value of the first variable named `name`.
pub open spec fn lookup(variables: Seq<(Seq<char>, Seq<char>)>, name: Seq<char>) -> Option<
    Seq<char>,
>
    decreases variables.len(),
{
    if variables.len() == 0 {
        None
    } else if variables[0].0 == name {
        Some(variables[0].1)
    } else {
        lookup(variables.skip(1), name)
    }
}

impl Environment {
    pub open spec fn view(&self) -> Seq<(Seq<char>, Seq<char>)> {
        self.variables@.map_values(|v: (String, String)| (v.0@, v.1@))
    }

    /// The value of the variable.
    pub open spec fn value(&self, name: Seq<char>) -> Option<Seq<char>> {
        lookup(self@, name)
    }

    /// The value of the variable.
    pub fn var(&self, name: &str) -> (r: Option<String>)
        ensures
            models::opt_text(r) == self.value(name@),
    {
        let ghost all = self@;
        let mut i: usize = 0;
        assert(all.skip(0) =~= all);
        while i < self.variables.len()
            invariant
                i <= self.variables@.len(),
                all == self@,
                lookup(all, name@) == lookup(all.skip(i as int), name@),
            decreases self.variables@.len() - i,
        {
            let v: &(String, String) = &self.variables[i];
            assert(all.skip(i as int)[0] == (v.0@, v.1@));
            assert(all.skip(i as int).skip(1) =~= all.skip(i + 1));
            if text::same(v.0.as_str(), name) {
                return Some(v.1.clone());
            }
            i = i + 1;
        }
        None
    }

    /// The value of the variable, else the given text.
    pub open spec fn value_or(&self, name: Seq<char>, default: Seq<char>) -> Seq<char> {
        match self.value(name) {
            Some(v) => v,
            None => default,
        }
    }

    fn var_or(&self, name: &str, default: &str) -> (r: String)
        ensures
            r@ == self.value_or(name@, default@),
    {
        match self.var(name) {
            Some(v) => v,
            None => default.to_string(),
        }
    }
}

/// The trimmed value of the variable, where something is left of it.
pub fn optional_env(env: &Environment, name: &str) -> (r: Option<String>)
    ensures
        models::opt_text(r) == models::non_blank(env.value(name@)),
{
    let value: Option<String> = env.var(name);
    models::trimmed_opt(&value)
}

/// The trimmed value of a variable that has to be set.
pub fn required_env(env: &Environment, name: &str) -> (r: Result<String, ConfigError>)
    ensures
        match r {
            Ok(v) => models::non_blank(env.value(name@)) == Some(v@),
            Err(ConfigError::Missing(n)) => env.value(name@) is None && n@ == name@,
            Err(ConfigError::Empty(n)) => env.value(name@) is Some && models::non_blank(
                env.value(name@),
            ) is None && n@ == name@,
        },
{
    match env.var(name) {
        None => Err(ConfigError::Missing(name.to_string())),
        Some(v) => match models::trimmed_opt(&Some(v)) {
            Some(t) => Ok(t),
            None => Err(ConfigError::Empty(name.to_string())),
        },
    }
}

/// The value read as a number of at most `max`, else `default`.
pub open spec fn number_or(value: Option<Seq<char>>, max: nat, default: nat) -> nat {
    match value {
        Some(v) => match numbers::parse_unsigned(v, max) {
            Some(n) => n,
            None => default,
        },
        None => default,
    }
}

fn usize_or(value: &Option<String>, default: usize) -> (r: usize)
    ensures
        r == number_or(models::opt_text(*value), usize::MAX as nat, default as nat),
{
    match value {
        Some(v) => match numbers::parse_usize(v.as_str()) {
            Some(n) => n,
            None => default,
        },
        None => default,
    }
}

fn u64_or(value: &Option<String>, default: u64) -> (r: u64)
    ensures
        r == number_or(models::opt_text(*value), u64::MAX as nat, default as nat),
{
    match value {
        Some(v) => match numbers::parse_u64(v.as_str()) {
            Some(n) => n,
            None => default,
        },
        None => default,
    }
}

// ---------------------------------------------------------------------------
// Settings
// ---------------------------------------------------------------------------
/// The error of a variable that has to be set, if there is one.
pub open spec fn is_required_error(env: Environment, name: Seq<char>, error: ConfigError) -> bool {
    match error {
        ConfigError::Missing(n) => env.value(name) is None && n@ == name,
        ConfigError::Empty(n) => env.value(name) is Some && models::non_blank(env.value(name))
            is None && n@ == name,
    }
}

/// The model: the one that is asked for, unless that is blank, else the one in
/// the environment, else the default.
pub open spec fn chosen_model(env: Environment, wanted: Option<Seq<char>>) -> Seq<char> {
    if models::non_blank(wanted) is Some {
        wanted->0
    } else {
        env.value_or("OPENAI_MODEL"@, "gpt-5.6"@)
    }
}

impl OpenAiConfig {
    /// The settings are those of the environment.
    pub open spec fn is_from(self, env: Environment, wanted: Option<Seq<char>>) -> bool {
        &&& models::non_blank(env.value("OPENAI_API_KEY"@)) == Some(self.api_key@)
        &&& self.model@ == chosen_model(env, wanted)
        &&& self.base_url@ == env.value_or("OPENAI_BASE_URL"@, "https://api.openai.com/v1"@)
        &&& self.max_slides == number_or(
            env.value("OPENAI_MAX_SLIDES"@),
            usize::MAX as nat,
            20,
        )
    }

    /// Reads the settings.
    pub fn from_env(env: &Environment, model_override: Option<String>) -> (r: Result<
        OpenAiConfig,
        ConfigError,
    >)
        ensures
            match r {
                Ok(config) => config.is_from(*env, models::opt_text(model_override)),
                Err(error) => is_required_error(*env, "OPENAI_API_KEY"@, error),
            },
    {
        let api_key: String = match required_env(env, "OPENAI_API_KEY") {
            Ok(key) => key,
            Err(error) => {
                return Err(error);
            },
        };
        let asked: bool = models::trimmed_opt(&model_override).is_some();
        let model: String = match model_override {
            Some(model) => if asked {
                model
            } else {
                env.var_or("OPENAI_MODEL", "gpt-5.6")
            },
            None => env.var_or("OPENAI_MODEL", "gpt-5.6"),
        };
        let slides: Option<String> = env.var("OPENAI_MAX_SLIDES");
        Ok(
            OpenAiConfig {
                api_key,
                model,
                base_url: env.var_or("OPENAI_BASE_URL", "https://api.openai.com/v1"),
                max_slides: usize_or(&slides, 20),
            },
        )
    }
}

impl ElevenLabsConfig {
    /// The settings are those of the environment.
    pub open spec fn is_from(self, env: Environment) -> bool {
        &&& models::non_blank(env.value("ELEVENLABS_API_KEY"@)) == Some(self.api_key@)
        &&& self.model_id@ == env.value_or("ELEVENLABS_STT_MODEL"@, "scribe_v2"@)
        &&& self.base_url@ == env.value_or("ELEVENLABS_BASE_URL"@, "https://api.elevenlabs.io"@)
    }

    /// Reads the settings.
    pub fn from_env(env: &Environment) -> (r: Result<ElevenLabsConfig, ConfigError>)
        ensures
            match r {
                Ok(config) => config.is_from(*env),
                Err(error) => is_required_error(*env, "ELEVENLABS_API_KEY"@, error),
            },
    {
        let api_key: String = match required_env(env, "ELEVENLABS_API_KEY") {
            Ok(key) => key,
            Err(error) => {
                return Err(error);
            },
        };
        Ok(
            ElevenLabsConfig {
                api_key,
                model_id: env.var_or("ELEVENLABS_STT_MODEL", "scribe_v2"),
                base_url: env.var_or("ELEVENLABS_BASE_URL", "https://api.elevenlabs.io"),
            },
        )
    }
}

/// The base address of the scraper, under either of its names.
pub open spec fn scraper_base(env: Environment) -> Option<Seq<char>> {
    if models::non_blank(env.value("TIKTOK_SCRAPER_BASE_URL"@)) is Some {
        models::non_blank(env.value("TIKTOK_SCRAPER_BASE_URL"@))
    } else {
        models::non_blank(env.value("SOCIAL_PROFILE_SCRAPER_BASE_URL"@))
    }
}

impl TikTokScraperConfig {
    /// The settings are those of the environment. A path of files goes before
    /// the address of the scraper.
    pub open spec fn is_from(self, env: Environment) -> bool {
        &&& self.timeout_secs == number_or(
            env.value("TIKTOK_SCRAPER_TIMEOUT_SECONDS"@),
            u64::MAX as nat,
            60,
        )
        &&& match self.provider {
            TikTokScraperProvider::Fixture(path) => env.value("TIKTOK_SCRAPER_FIXTURE_PATH"@)
                == Some(path@),
            TikTokScraperProvider::SocialProfileScraper(scraper) => {
                &&& env.value("TIKTOK_SCRAPER_FIXTURE_PATH"@) is None
                &&& scraper_base(env) == Some(scraper.base_url@)
                &&& models::opt_text(scraper.region) == models::non_blank(
                    env.value("TIKTOK_SCRAPER_REGION"@),
                )
                &&& scraper.max_following_pages == {
                    let n = number_or(
                        env.value("TIKTOK_SCRAPER_MAX_FOLLOWING_PAGES"@),
                        usize::MAX as nat,
                        10,
                    );
                    if n >= 1 {
                        n
                    } else {
                        1
                    }
                }
            },
        }
    }

    /// Reads the settings.
    pub fn from_env(env: &Environment) -> (r: Result<TikTokScraperConfig, ConfigError>)
        ensures
            match r {
                Ok(config) => config.is_from(*env),
                Err(error) => env.value("TIKTOK_SCRAPER_FIXTURE_PATH"@) is None && scraper_base(
                    *env,
                ) is None && (error matches ConfigError::Missing(n) && n@
                    == "TIKTOK_SCRAPER_BASE_URL"@),
            },
    {
        let timeout: Option<String> = env.var("TIKTOK_SCRAPER_TIMEOUT_SECONDS");
        let timeout_secs: u64 = u64_or(&timeout, 60);
        if let Some(path) = env.var("TIKTOK_SCRAPER_FIXTURE_PATH") {
            return Ok(
                TikTokScraperConfig { provider: TikTokScraperProvider::Fixture(path), timeout_secs },
            );
        }
        let first: Option<String> = optional_env(env, "TIKTOK_SCRAPER_BASE_URL");
        let either: Option<String> = if first.is_some() {
            first
        } else {
            optional_env(env, "SOCIAL_PROFILE_SCRAPER_BASE_URL")
        };
        let base_url: String = match either {
            Some(base_url) => base_url,
            None => {
                return Err(ConfigError::Missing("TIKTOK_SCRAPER_BASE_URL".to_string()));
            },
        };
        let pages: Option<String> = env.var("TIKTOK_SCRAPER_MAX_FOLLOWING_PAGES");
        let wanted: usize = usize_or(&pages, 10);
        let max_following_pages: usize = if wanted >= 1 {
            wanted
        } else {
            1
        };
        Ok(
            TikTokScraperConfig {
                provider: TikTokScraperProvider::SocialProfileScraper(
                    SocialProfileScraperConfig {
                        base_url,
                        region: optional_env(env, "TIKTOK_SCRAPER_REGION"),
                        max_following_pages,
                    },
                ),
                timeout_secs,
            },
        )
    }
}

impl AppConfig {
    /// Reads the settings. The first setting that is wrong is reported: those
    /// of OpenAI, of ElevenLabs and of the scraper in this order.
    pub fn from_env(
        env: &Environment,
        db_path: String,
        openai_model_override: Option<String>,
    ) -> (r: Result<AppConfig, ConfigError>)
        ensures
            match r {
                Ok(config) => {
                    &&& config.db_path@ == db_path@
                    &&& config.openai.is_from(*env, models::opt_text(openai_model_override))
                    &&& config.elevenlabs.is_from(*env)
                    &&& config.tiktok.is_from(*env)
                },
                Err(error) => {
                    ||| is_required_error(*env, "OPENAI_API_KEY"@, error)
                    ||| models::non_blank(env.value("OPENAI_API_KEY"@)) is Some
                        && is_required_error(*env, "ELEVENLABS_API_KEY"@, error)
                    ||| {
                        &&& models::non_blank(env.value("OPENAI_API_KEY"@)) is Some
                        &&& models::non_blank(env.value("ELEVENLABS_API_KEY"@)) is Some
                        &&& env.value("TIKTOK_SCRAPER_FIXTURE_PATH"@) is None
                        &&& scraper_base(*env) is None
                        &&& error matches ConfigError::Missing(n)
                        &&& n@ == "TIKTOK_SCRAPER_BASE_URL"@
                    }
                },
            },
    {
        let openai: OpenAiConfig = match OpenAiConfig::from_env(env, openai_model_override) {
            Ok(openai) => openai,
            Err(error) => {
                return Err(error);
            },
        };
        let elevenlabs: ElevenLabsConfig = match ElevenLabsConfig::from_env(env) {
            Ok(elevenlabs) => elevenlabs,
            Err(error) => {
                return Err(error);
            },
        };
        let tiktok: TikTokScraperConfig = match TikTokScraperConfig::from_env(env) {
            Ok(tiktok) => tiktok,
            Err(error) => {
                return Err(error);
            },
        };
        Ok(AppConfig { db_path, openai, elevenlabs, tiktok })
    }
}

} // verus!
