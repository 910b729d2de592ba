//! The settings of the backend.

use vstd::prelude::*;

verus! {

/// Where the services are, and the token for Home Assistant.
#[derive(Debug, PartialEq, Eq)]
pub struct Settings {
    pub graphql_url: String,
    pub ha_base_url: String,
    pub ha_token: String,
}

/// What a `Settings` says.
#[verifier::ext_equal]
pub struct SettingsView {
    pub graphql_url: Seq<char>,
    pub ha_base_url: Seq<char>,
    pub ha_token: Seq<char>,
}

impl View for Settings {
    type V = SettingsView;

    open spec fn view(&self) -> SettingsView {
        SettingsView {
            graphql_url: self.graphql_url@,
            ha_base_url: self.ha_base_url@,
            ha_token: self.ha_token@,
        }
    }
}

/// The settings that come of those that were made, or why there are none.
pub open spec fn resolved(
    graphql_url: Option<String>,
    ha_base_url: Option<String>,
    ha_token: Option<String>,
) -> Result<SettingsView, Seq<char>> {
    match ha_token {
        Some(token) => Ok(
            SettingsView {
                graphql_url: text_or(graphql_url, "http://localhost:3030/graphql"@),
                ha_base_url: text_or(ha_base_url, "http://supervisor/core/api"@),
                ha_token: token@,
            },
        ),
        None => Err("HASS_TOKEN not set (export it from run.sh)"@),
    }
}

/// Settings, or the text that says why there are none.
pub open spec fn resolved_view(result: Result<Settings, String>) -> Result<
    SettingsView,
    Seq<char>,
> {
    match result {
        Ok(settings) => Ok(settings@),
        Err(text) => Err(text@),
    }
}

/// The text, or another where it is missing.
pub open spec fn text_or(text: Option<String>, other: Seq<char>) -> Seq<char> {
    match text {
        Some(text) => text@,
        None => other,
    }
}

impl Settings {
    /// The settings, given those that were made: the token has no default, the addresses have.
    pub fn resolve(
        graphql_url: Option<String>,
        ha_base_url: Option<String>,
        ha_token: Option<String>,
    ) -> (r: Result<Settings, String>)
        ensures
            match r {
                Ok(settings) => ha_token is Some && settings.ha_token@ == ha_token->0@
                    && settings.graphql_url@ == text_or(
                    graphql_url,
                    "http://localhost:3030/graphql"@,
                ) && settings.ha_base_url@ == text_or(ha_base_url, "http://supervisor/core/api"@),
                Err(text) => ha_token is None && text@
                    == "HASS_TOKEN not set (export it from run.sh)"@,
            },
            resolved_view(r) == resolved(graphql_url, ha_base_url, ha_token),
    {
        let graphql_url = match graphql_url {
            Some(url) => url,
            None => "http://localhost:3030/graphql".to_string(),
        };
        let ha_base_url = match ha_base_url {
            Some(url) => url,
            None => "http://supervisor/core/api".to_string(),
        };
        match ha_token {
            Some(ha_token) => Ok(Settings { graphql_url, ha_base_url, ha_token }),
            None => Err("HASS_TOKEN not set (export it from run.sh)".to_string()),
        }
    }
}

/// A text that was set is taken as it is, even an empty one; another stands in only for one that is
/// missing.
pub proof fn law_what_was_set_is_taken(text: String, other: Seq<char>)
    ensures
        text_or(Some(text), other) == text@,
        text_or(None, other) == other,
{
}

/// There are settings wherever there is a token, whatever it is, and each of them is what was set or
/// its default; without a token there are none.
pub proof fn law_settings_need_a_token_alone(
    graphql_url: Option<String>,
    ha_base_url: Option<String>,
    url: String,
    token: String,
)
    ensures
        resolved(graphql_url, ha_base_url, Some(token)) is Ok,
        resolved(graphql_url, ha_base_url, Some(token))->Ok_0.ha_token == token@,
        resolved(Some(url), ha_base_url, Some(token))->Ok_0.graphql_url == url@,
        resolved(graphql_url, Some(url), Some(token))->Ok_0.ha_base_url == url@,
        resolved(None, ha_base_url, Some(token))->Ok_0.graphql_url
            == "http://localhost:3030/graphql"@,
        resolved(graphql_url, None, Some(token))->Ok_0.ha_base_url == "http://supervisor/core/api"@,
        resolved(graphql_url, ha_base_url, None) == Err::<SettingsView, _>(
            "HASS_TOKEN not set (export it from run.sh)"@,
        ),
{
}

} // verus!
