//! User enrichment decisions: who still needs a profile or trust
//! lookup, which profile fields win, and how the messaging platform's
//! answers are read. The HTTP calls themselves live in the binary.

use vstd::prelude::*;

use crate::errors::JobError;
use crate::models::{HackatimeResponse, SlackProfile};

verus! {

/// Users enriched per sweep, at most.
pub const TRACE_BATCH_LIMIT: usize = 100;

/// Seconds a cached token stays fresh.
pub const TOKEN_TTL_SECS: u64 = 36000;

/// Whether a user still needs enrichment: no username yet, the
/// sentinel avatar, or trust marked unavailable.
pub fn user_needs_info(
    username: &Option<String>,
    pfp_url: &String,
    trust_level: &Option<String>,
) -> (r: bool)
    ensures
        r == (username is None || pfp_url@ == "notfound"@ || (trust_level is Some && trust_level->0@
            == "unavailable"@)),
{
    if username.is_none() {
        return true;
    }
    let notfound = String::from_str("notfound");
    if *pfp_url == notfound {
        return true;
    }
    match trust_level {
        Some(level) => {
            let unavailable = String::from_str("unavailable");
            *level == unavailable
        },
        None => false,
    }
}

/// The username a profile resolves to: the display name, else the
/// real name, else the literal `unknown`.
pub fn pick_username(profile: &SlackProfile) -> (r: String)
    ensures
        profile.display_name is Some ==> r == profile.display_name->0,
        profile.display_name is None && profile.real_name is Some ==> r == profile.real_name->0,
        profile.display_name is None && profile.real_name is None ==> r@ == "unknown"@,
{
    match &profile.display_name {
        Some(name) => name.clone(),
        None => match &profile.real_name {
            Some(name) => name.clone(),
            None => String::from_str("unknown"),
        },
    }
}

/// The avatar a profile resolves to, largest useful size first:
/// 192, then 512, then 72, then 48, else the sentinel `notfound`.
pub fn pick_pfp_url(profile: &SlackProfile) -> (r: String)
    ensures
        profile.image_192 is Some ==> r == profile.image_192->0,
        profile.image_192 is None && profile.image_512 is Some ==> r == profile.image_512->0,
        profile.image_192 is None && profile.image_512 is None && profile.image_72 is Some ==> r
            == profile.image_72->0,
        profile.image_192 is None && profile.image_512 is None && profile.image_72 is None
            && profile.image_48 is Some ==> r == profile.image_48->0,
        profile.image_192 is None && profile.image_512 is None && profile.image_72 is None
            && profile.image_48 is None ==> r@ == "notfound"@,
{
    match &profile.image_192 {
        Some(url) => url.clone(),
        None => match &profile.image_512 {
            Some(url) => url.clone(),
            None => match &profile.image_72 {
                Some(url) => url.clone(),
                None => match &profile.image_48 {
                    Some(url) => url.clone(),
                    None => String::from_str("notfound"),
                },
            },
        },
    }
}

/// The bearer token for profile lookups: the configured one when set,
/// else a cached one still within its lifetime, else an error telling
/// the operator to configure one.
pub fn choose_slack_token(config_token: &String, cached: &Option<(String, u64)>) -> (r: Result<
    String,
    JobError,
>)
    ensures
        match r {
            Ok(tok) => {
                if config_token@.len() > 0 {
                    tok == *config_token
                } else {
                    cached is Some && (cached->0).1 < TOKEN_TTL_SECS && tok == (cached->0).0
                }
            },
            Err(e) => config_token@.len() == 0 && (cached is None || (cached->0).1 >= TOKEN_TTL_SECS)
                && e is ExternalApi,
        },
{
    if !config_token.as_str().is_empty() {
        return Ok(config_token.clone());
    }
    match cached {
        Some((tok, age_secs)) => {
            if *age_secs < TOKEN_TTL_SECS {
                return Ok(tok.clone());
            }
        },
        None => (),
    }
    Err(
        JobError::ExternalApi(
            String::from_str("profile lookups need a bot token; none is configured"),
        ),
    )
}

/// What the enrichment loop does with one profile response status.
#[derive(Debug, Clone, Copy, PartialEq, Eq, Structural)]
pub enum SlackFetchStep {
    /// 429: wait any given seconds, then report the item rate limited.
    RateLimited,
    /// A success: read the profile from the body.
    ReadBody,
    /// Any other status: leave the user for the next sweep.
    SkipUser,
}

/// Classifies a profile response by status alone.
pub fn slack_fetch_step(status: u16) -> (r: SlackFetchStep)
    ensures
        status == 429 ==> r == SlackFetchStep::RateLimited,
        status != 429 && crate::client::spec_is_success(status) ==> r == SlackFetchStep::ReadBody,
        status != 429 && !crate::client::spec_is_success(status) ==> r == SlackFetchStep::SkipUser,
{
    if status == 429 {
        SlackFetchStep::RateLimited
    } else if 200 <= status && status <= 299 {
        SlackFetchStep::ReadBody
    } else {
        SlackFetchStep::SkipUser
    }
}

/// Trust enrichment over the stats endpoint's answer.
pub struct TrustManager;

impl TrustManager {
    /// The trust fields an answer carries: level and value for a known
    /// user, nothing for an absent one.
    pub fn trust_fields(stats: &Option<HackatimeResponse>) -> (r: Option<(String, i32)>)
        ensures
            match stats {
                Some(s) => r == Some((s.trust_factor.trust_level, s.trust_factor.trust_value)),
                None => r is None,
            },
    {
        match stats {
            Some(s) => Some((s.trust_factor.trust_level.clone(), s.trust_factor.trust_value)),
            None => None,
        }
    }
}

/// Profile-driven column updates.
pub struct UserUpdater;

impl UserUpdater {
    /// The username and avatar columns one profile answer sets.
    pub fn resolved_profile_fields(profile: &SlackProfile) -> (r: (String, String))
        ensures
            profile.display_name is Some ==> r.0 == profile.display_name->0,
            profile.display_name is None && profile.real_name is Some ==> r.0
                == profile.real_name->0,
            profile.display_name is None && profile.real_name is None ==> r.0@ == "unknown"@,
            profile.image_192 is Some ==> r.1 == profile.image_192->0,
            profile.image_192 is None && profile.image_512 is Some ==> r.1
                == profile.image_512->0,
            profile.image_192 is None && profile.image_512 is None && profile.image_72 is Some
                ==> r.1 == profile.image_72->0,
            profile.image_192 is None && profile.image_512 is None && profile.image_72 is None
                && profile.image_48 is Some ==> r.1 == profile.image_48->0,
            profile.image_192 is None && profile.image_512 is None && profile.image_72 is None
                && profile.image_48 is None ==> r.1@ == "notfound"@,
    {
        (pick_username(profile), pick_pfp_url(profile))
    }
}

} // verus!
