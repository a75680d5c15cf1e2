//! Who may send a request, and for which model.

use vstd::prelude::*;

use crate::proxy::config::GroupConfig;
use crate::proxy::refusal::Refusal;
use crate::proxy::request;
use crate::proxy::request::{client_key, user_agent, Headers};
use crate::proxy::servers::holds_text;
use crate::text;
use crate::text::str_eq;
use crate::translate::chat;

verus! {

/// The text is one of these.
pub open spec fn listed(texts: Seq<String>, s: Seq<char>) -> bool {
    exists|i: int| 0 <= i < texts.len() && (#[trigger] texts[i])@ == s
}

/// The paths that are blocked: those of the cache; where it holds none, those stored, where
/// that can be known. A failure blocks nothing.
pub fn blocked_paths(
    cached: Result<Option<Vec<String>>, ()>,
    stored: Option<Vec<String>>,
) -> (r: Vec<String>)
    ensures
        r@ == (match (cached, stored) {
            (Ok(Some(paths)), _) => paths@,
            (Ok(None), Some(paths)) => paths@,
            _ => Seq::empty(),
        }),
{
    match cached {
        Ok(Some(paths)) => paths,
        Ok(None) => match stored {
            Some(paths) => paths,
            None => Vec::new(),
        },
        Err(_) => Vec::new(),
    }
}

/// A request enters with its key, unless its path is blocked or it has none. Paths are
/// looked at first, before any key is.
pub fn enter(blocked: &Vec<String>, path: &str, headers: &Headers) -> (r: Result<String, Refusal>)
    ensures
        match r {
            Ok(key) => !listed(blocked@, path@) && request::key_of(
                request::header_views(headers@),
            ) == Some(key@),
            Err(refusal) => refusal == if listed(blocked@, path@) {
                Refusal::NotFound
            } else {
                Refusal::InvalidKey
            },
        },
        r is Ok <==> !listed(blocked@, path@) && request::key_of(
            request::header_views(headers@),
        ) is Some,
{
    if holds_text(blocked, path) {
        return Err(Refusal::NotFound);
    }
    match client_key(headers) {
        Some(key) => Ok(key),
        None => Err(Refusal::InvalidKey),
    }
}

/// The keys under which a group is looked up, in turn: the one that the raw key names, and,
/// where the raw key seemed to bring along keys for single servers, the raw key itself: it
/// may be a sub-key that holds the separator literally.
pub fn keys_to_look_up(group_key: &str, brings_dynamic_keys: bool, raw_key: &str) -> (r: Vec<
    String,
>)
    ensures
        text::texts(r@) == (if brings_dynamic_keys {
            seq![group_key@, raw_key@]
        } else {
            seq![group_key@]
        }),
{
    let mut keys: Vec<String> = Vec::new();
    keys.push(group_key.to_owned());
    if brings_dynamic_keys {
        keys.push(raw_key.to_owned());
        assert(text::texts(keys@) =~= seq![group_key@, raw_key@]);
    } else {
        assert(text::texts(keys@) =~= seq![group_key@]);
    }
    keys
}

/// A key is let in, with its user agent, unless it is nobody's or disabled, or the user agent
/// is blocked.
pub fn let_in(config: Option<&GroupConfig>, headers: &Headers) -> (r: Result<String, Refusal>)
    ensures
        ({
            let agent = request::agent_of(request::header_views(headers@));
            match config {
                None => r == Err::<String, Refusal>(Refusal::InvalidKey),
                Some(config) => if !config.is_active {
                    r == Err::<String, Refusal>(Refusal::KeyDisabled)
                } else if listed(config.blocked_user_agents@, agent) {
                    r == Err::<String, Refusal>(Refusal::AccessDenied)
                } else {
                    r is Ok && r->Ok_0@ == agent
                },
            }
        }),
{
    match config {
        None => Err(Refusal::InvalidKey),
        Some(config) => {
            if !config.is_active {
                return Err(Refusal::KeyDisabled);
            }
            let agent = user_agent(headers);
            if holds_text(&config.blocked_user_agents, agent.as_str()) {
                return Err(Refusal::AccessDenied);
            }
            Ok(agent)
        },
    }
}

/// The key may use the model. A group without a list of models allows every request; one
/// with a list only those for a model on it, and on that of the sub-key, where it has one.
pub open spec fn may_use(config: GroupConfig, model: Option<Seq<char>>) -> bool {
    config.allowed_models@.len() > 0 ==> (model matches Some(model) && listed(
        config.allowed_models@,
        model,
    ) && (config.key_allowed_models@.len() > 0 ==> listed(config.key_allowed_models@, model)))
}

/// Whether the key may use the model.
pub fn is_model_allowed(config: &GroupConfig, model: &Option<String>) -> (r: bool)
    ensures
        r == may_use(*config, chat::text_opt(*model)),
{
    if config.allowed_models.len() == 0 {
        return true;
    }
    match model {
        None => false,
        Some(model) => {
            if !holds_text(&config.allowed_models, model.as_str()) {
                return false;
            }
            config.key_allowed_models.len() == 0 || holds_text(
                &config.key_allowed_models,
                model.as_str(),
            )
        },
    }
}

/// Whether the request is one to count tokens.
pub fn counts_tokens(path: &str) -> (r: bool)
    ensures
        r == (path@ == "/v1/messages/count_tokens"@),
{
    str_eq(path, "/v1/messages/count_tokens")
}

/// The list of a sub-key only ever takes models away: what a sub-key may use, its group may.
pub proof fn law_sub_key_models_are_the_groups(
    config: GroupConfig,
    unrestricted: GroupConfig,
    model: Option<Seq<char>>,
)
    requires
        unrestricted.allowed_models == config.allowed_models,
        unrestricted.key_allowed_models@.len() == 0,
    ensures
        may_use(config, model) ==> may_use(unrestricted, model),
{
}

} // verus!
