//! Which variable sets what.

use vstd::prelude::*;
use crate::config;
use crate::config::{
    ConfigError, ElevenLabsConfig, Environment, OpenAiConfig, TikTokScraperConfig,
    TikTokScraperProvider,
};
use crate::numbers;
use crate::text;

verus! {

/// The variable at `i` is the first that is named `name`.
pub open spec fn is_first_named(env: Environment, name: Seq<char>, i: int) -> bool {
    &&& 0 <= i < env.variables@.len()
    &&& env.variables@[i].0@ == name
    &&& forall|j: int| 0 <= j < i ==> (#[trigger] env.variables@[j]).0@ != name
}

/// A variable has the value that stands first under its name, and none where its
/// name is not there.
pub proof fn law_value_of_a_variable(env: Environment, name: Seq<char>, i: int)
    ensures
        is_first_named(env, name, i) ==> env.value(name) == Some(env.variables@[i].1@),
        (forall|j: int| 0 <= j < env.variables@.len() ==> (#[trigger] env.variables@[j]).0@ != name)
            ==> env.value(name) is None,
{
    let all = env@;
    let n = if is_first_named(env, name, i) {
        i
    } else {
        all.len() as int
    };
    if is_first_named(env, name, i) || forall|j: int|
        0 <= j < env.variables@.len() ==> (#[trigger] env.variables@[j]).0@ != name {
        assert forall|j: int| 0 <= j < n implies (#[trigger] all[j]).0 != name by {
            assert(all[j].0 == env.variables@[j].0@);
        }
        lemma_skipped(all, name, n);
        if n < all.len() {
            assert(all.skip(n)[0] == all[n]);
        }
    }
}

proof fn lemma_skipped(all: Seq<(Seq<char>, Seq<char>)>, name: Seq<char>, n: int)
    requires
        0 <= n <= all.len(),
        forall|j: int| 0 <= j < n ==> (#[trigger] all[j]).0 != name,
    ensures
        config::lookup(all, name) == config::lookup(all.skip(n), name),
    decreases n,
{
    if n == 0 {
        assert(all.skip(0) =~= all);
    } else {
        lemma_skipped(all, name, n - 1);
        let rest = all.skip(n - 1);
        assert(rest[0] == all[n - 1]);
        assert(rest.skip(1) =~= all.skip(n));
    }
}

/// A number is what the variable says where that is a number within the bound, else
/// the usual one.
pub proof fn law_numbers_that_variables_set(v: Seq<char>, n: nat, max: nat, usual: nat)
    ensures
        config::number_or(None, max, usual) == usual,
        numbers::parse_unsigned(v, max) is None ==> config::number_or(Some(v), max, usual)
            == usual,
        numbers::parse_unsigned(v, max) == Some(n) ==> config::number_or(Some(v), max, usual)
            == n,
{
}

/// The number that is read of the variable, else the usual one.
pub open spec fn number_set(env: Environment, name: Seq<char>, max: nat, usual: nat) -> nat {
    if env.value(name) is Some && numbers::parse_unsigned(env.value(name)->0, max) is Some {
        numbers::parse_unsigned(env.value(name)->0, max)->0
    } else {
        usual
    }
}

/// The value of the variable, else the usual one.
pub open spec fn text_set(env: Environment, name: Seq<char>, usual: Seq<char>) -> Seq<char> {
    if env.value(name) is Some {
        env.value(name)->0
    } else {
        usual
    }
}

/// The variable is set to the text, up to white space around it, and the text is
/// not empty.
pub open spec fn set_to(env: Environment, name: Seq<char>, value: Seq<char>) -> bool {
    env.value(name) is Some && text::trim(env.value(name)->0) == value && value.len() > 0
}

/// The variable is not set to anything but white space.
pub open spec fn not_set(env: Environment, name: Seq<char>) -> bool {
    env.value(name) is None || text::trim(env.value(name)->0).len() == 0
}

/// The settings for OpenAI: a key, the model that was asked for or else set, the
/// address, and twenty slides if nothing else is set.
pub proof fn law_settings_for_openai(
    c: OpenAiConfig,
    env: Environment,
    wanted: Option<Seq<char>>,
)
    ensures
        c.is_from(env, wanted) <==> {
            &&& set_to(env, "OPENAI_API_KEY"@, c.api_key@)
            &&& wanted is Some && text::trim(wanted->0).len() > 0 ==> c.model@ == wanted->0
            &&& wanted is None || text::trim(wanted->0).len() == 0 ==> c.model@ == text_set(
                env,
                "OPENAI_MODEL"@,
                "gpt-5.6"@,
            )
            &&& c.base_url@ == text_set(env, "OPENAI_BASE_URL"@, "https://api.openai.com/v1"@)
            &&& c.max_slides == number_set(env, "OPENAI_MAX_SLIDES"@, usize::MAX as nat, 20)
        },
{
}

/// The settings for ElevenLabs: a key, the model and the address.
pub proof fn law_settings_for_elevenlabs(c: ElevenLabsConfig, env: Environment)
    ensures
        c.is_from(env) <==> {
            &&& set_to(env, "ELEVENLABS_API_KEY"@, c.api_key@)
            &&& c.model_id@ == text_set(env, "ELEVENLABS_STT_MODEL"@, "scribe_v2"@)
            &&& c.base_url@ == text_set(env, "ELEVENLABS_BASE_URL"@, "https://api.elevenlabs.io"@)
        },
{
}

/// The settings for the scraper: files go before an address, an address is found
/// under either of two names, one page of accounts is read at least and ten if
/// nothing else is set, and a minute is waited if nothing else is set.
pub proof fn law_settings_for_the_scraper(c: TikTokScraperConfig, env: Environment)
    requires
        c.is_from(env),
    ensures
        c.timeout_secs == number_set(
            env,
            "TIKTOK_SCRAPER_TIMEOUT_SECONDS"@,
            u64::MAX as nat,
            60,
        ),
        c.provider is Fixture <==> env.value("TIKTOK_SCRAPER_FIXTURE_PATH"@) is Some,
        match c.provider {
            TikTokScraperProvider::Fixture(path) => env.value("TIKTOK_SCRAPER_FIXTURE_PATH"@)
                == Some(path@),
            TikTokScraperProvider::SocialProfileScraper(s) => {
                let n = number_set(
                    env,
                    "TIKTOK_SCRAPER_MAX_FOLLOWING_PAGES"@,
                    usize::MAX as nat,
                    10,
                );
                &&& set_to(env, "TIKTOK_SCRAPER_BASE_URL"@, s.base_url@) || not_set(
                    env,
                    "TIKTOK_SCRAPER_BASE_URL"@,
                ) && set_to(env, "SOCIAL_PROFILE_SCRAPER_BASE_URL"@, s.base_url@)
                &&& s.region is Some ==> set_to(env, "TIKTOK_SCRAPER_REGION"@, s.region->0@)
                &&& s.region is None ==> not_set(env, "TIKTOK_SCRAPER_REGION"@)
                &&& n == 0 ==> s.max_following_pages == 1
                &&& n > 0 ==> s.max_following_pages == n
            },
        },
{
}

/// There is no address of the scraper where neither variable for it is set.
pub proof fn law_address_of_the_scraper(env: Environment, address: Seq<char>)
    ensures
        config::scraper_base(env) is None <==> not_set(env, "TIKTOK_SCRAPER_BASE_URL"@) && not_set(
            env,
            "SOCIAL_PROFILE_SCRAPER_BASE_URL"@,
        ),
        set_to(env, "TIKTOK_SCRAPER_BASE_URL"@, address) ==> config::scraper_base(env)
            == Some(address),
        not_set(env, "TIKTOK_SCRAPER_BASE_URL"@) && set_to(
            env,
            "SOCIAL_PROFILE_SCRAPER_BASE_URL"@,
            address,
        ) ==> config::scraper_base(env) == Some(address),
{
}

/// A variable that has to be set is reported as missing where it is not there, and
/// as empty where it holds nothing but white space.
pub proof fn law_variables_that_have_to_be_set(
    env: Environment,
    name: Seq<char>,
    error: ConfigError,
)
    requires
        config::is_required_error(env, name, error),
    ensures
        not_set(env, name),
        error is Missing <==> env.value(name) is None,
        match error {
            ConfigError::Missing(n) => n@ == name,
            ConfigError::Empty(n) => n@ == name,
        },
{
}

} // verus!
