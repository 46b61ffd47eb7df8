//! Who the user is and where the match server is.

use vstd::prelude::*;

use crate::seqs;
use crate::text;

verus! {

/// The server that is asked if no other is configured.
pub const DEFAULT_RDUEL_SERVER_URL: &'static str = "http://127.0.0.1:8787";

/// Who the user is and where the match server is.
pub struct RduelSettings {
    pub atcoder_user: String,
    pub server_url: String,
}

/// What a `RduelSettings` holds.
#[verifier::ext_equal]
pub struct RduelSettingsModel {
    pub atcoder_user: Seq<char>,
    pub server_url: Seq<char>,
}

impl DeepView for RduelSettings {
    type V = RduelSettingsModel;

    open spec fn deep_view(&self) -> RduelSettingsModel {
        RduelSettingsModel {
            atcoder_user: self.atcoder_user@,
            server_url: self.server_url@,
        }
    }
}

/// What the settings of the editor say.
pub struct RduelSettingsContent {
    pub atcoder_user: Option<String>,
    pub server_url: Option<String>,
}

/// What a `RduelSettingsContent` holds.
#[verifier::ext_equal]
pub struct RduelSettingsContentModel {
    pub atcoder_user: Option<Seq<char>>,
    pub server_url: Option<Seq<char>>,
}

impl DeepView for RduelSettingsContent {
    type V = RduelSettingsContentModel;

    open spec fn deep_view(&self) -> RduelSettingsContentModel {
        RduelSettingsContentModel {
            atcoder_user: self.atcoder_user.deep_view(),
            server_url: self.server_url.deep_view(),
        }
    }
}

/// What was saved when the user last looked for a match.
pub struct LocalRduelConfig {
    pub atcoder_user: Option<String>,
    pub server_url: Option<String>,
}

/// What a `LocalRduelConfig` holds.
#[verifier::ext_equal]
pub struct LocalRduelConfigModel {
    pub atcoder_user: Option<Seq<char>>,
    pub server_url: Option<Seq<char>>,
}

impl DeepView for LocalRduelConfig {
    type V = LocalRduelConfigModel;

    open spec fn deep_view(&self) -> LocalRduelConfigModel {
        LocalRduelConfigModel {
            atcoder_user: self.atcoder_user.deep_view(),
            server_url: self.server_url.deep_view(),
        }
    }
}

/// A value that is set to more than blanks.
pub open spec fn filled(value: Option<Seq<char>>) -> Option<Seq<char>> {
    match value {
        Some(value) => if seqs::is_blank(value) {
            None
        } else {
            Some(value)
        },
        None => None,
    }
}

/// The settings of the editor, if they say something, or else what was saved, or else the default.
pub open spec fn resolved(
    setting: Option<Seq<char>>,
    saved: Option<Seq<char>>,
    default: Seq<char>,
) -> Seq<char> {
    match filled(setting) {
        Some(value) => value,
        None => match saved {
            Some(value) => value,
            None => default,
        },
    }
}

/// The settings that the settings of the editor and what was saved amount to.
pub open spec fn settings_from(
    content: Option<RduelSettingsContentModel>,
    local: Option<LocalRduelConfigModel>,
) -> RduelSettingsModel {
    RduelSettingsModel {
        atcoder_user: resolved(
            match content {
                Some(content) => content.atcoder_user,
                None => None,
            },
            match local {
                Some(local) => local.atcoder_user,
                None => None,
            },
            seq![],
        ),
        server_url: resolved(
            match content {
                Some(content) => content.server_url,
                None => None,
            },
            match local {
                Some(local) => local.server_url,
                None => None,
            },
            "http://127.0.0.1:8787"@,
        ),
    }
}

fn resolve(setting: Option<String>, saved: Option<String>, default: String) -> (r: String)
    ensures
        r@ == resolved(setting.deep_view(), saved.deep_view(), default@),
{
    if let Some(value) = setting {
        if !text::is_blank_str(value.as_str()) {
            return value;
        }
    }
    match saved {
        Some(value) => value,
        None => default,
    }
}

impl RduelSettings {
    /// The settings that the settings of the editor and what was saved amount to.
    pub fn from_settings(content: Option<RduelSettingsContent>, local: Option<LocalRduelConfig>)
        -> (r: Self)
        ensures
            r.deep_view() == settings_from(content.deep_view(), local.deep_view()),
    {
        let (user_setting, url_setting) = match content {
            Some(content) => (content.atcoder_user, content.server_url),
            None => (None, None),
        };
        let (user_saved, url_saved) = match local {
            Some(local) => (local.atcoder_user, local.server_url),
            None => (None, None),
        };
        let nobody = String::new();
        assert(nobody@ =~= seq![]);
        RduelSettings {
            atcoder_user: resolve(user_setting, user_saved, nobody),
            server_url: resolve(url_setting, url_saved, DEFAULT_RDUEL_SERVER_URL.to_owned()),
        }
    }
}

impl LocalRduelConfig {
    /// Where it is saved, as the parts of a path below the home directory.
    pub fn path() -> (r: Vec<String>)
        ensures
            r.deep_view() == seq![".rduel"@, "config.json"@],
    {
        let mut out: Vec<String> = Vec::new();
        out.push(".rduel".to_owned());
        out.push("config.json".to_owned());
        assert(out.deep_view() =~= seq![".rduel"@, "config.json"@]);
        out
    }

    /// What is saved for a user and a server.
    pub fn save_atcoder_user_and_server_url(atcoder_user: &str, server_url: &str) -> (r: Self)
        ensures
            r.deep_view() == (LocalRduelConfigModel {
                atcoder_user: Some(atcoder_user@),
                server_url: Some(server_url@),
            }),
    {
        LocalRduelConfig {
            atcoder_user: Some(atcoder_user.to_owned()),
            server_url: Some(server_url.to_owned()),
        }
    }
}

/// What was saved is what is used, unless the settings of the editor say something else.
pub proof fn saved_config_is_used(atcoder_user: Seq<char>, server_url: Seq<char>)
    ensures
        settings_from(
            None,
            Some(
                LocalRduelConfigModel {
                    atcoder_user: Some(atcoder_user),
                    server_url: Some(server_url),
                },
            ),
        ) == (RduelSettingsModel { atcoder_user, server_url }),
{
}

/// What the settings of the editor say counts, if it is not blank, then what was saved, and then the
/// default: no user, and the server on this machine. User and server are settled apart.
pub proof fn settings_come_first(
    content: RduelSettingsContentModel,
    local: LocalRduelConfigModel,
)
    ensures
        ({
            let settings = settings_from(Some(content), Some(local));
            let named = content.atcoder_user is Some && !seqs::is_blank(content.atcoder_user->0);
            let served = content.server_url is Some && !seqs::is_blank(content.server_url->0);
            &&& named ==> settings.atcoder_user == content.atcoder_user->0
            &&& !named && local.atcoder_user is Some ==> settings.atcoder_user
                == local.atcoder_user->0
            &&& !named && local.atcoder_user is None ==> settings.atcoder_user.len() == 0
            &&& served ==> settings.server_url == content.server_url->0
            &&& !served && local.server_url is Some ==> settings.server_url == local.server_url->0
            &&& !served && local.server_url is None ==> settings.server_url
                == "http://127.0.0.1:8787"@
        }),
        settings_from(Some(content), None) == settings_from(
            Some(content),
            Some(LocalRduelConfigModel { atcoder_user: None, server_url: None }),
        ),
        settings_from(None, Some(local)) == settings_from(
            Some(RduelSettingsContentModel { atcoder_user: None, server_url: None }),
            Some(local),
        ),
        settings_from(None, None).atcoder_user.len() == 0,
        settings_from(None, None).server_url == "http://127.0.0.1:8787"@,
{
}
/// The models hold what the values hold, each part under its own name.
pub proof fn models_hold_their_parts(
    rduel_settings: RduelSettings,
    rduel_settings_content: RduelSettingsContent,
    local_rduel_config: LocalRduelConfig,
)
    ensures
        rduel_settings.deep_view() == (RduelSettingsModel {
            atcoder_user: rduel_settings.atcoder_user@,
            server_url: rduel_settings.server_url@,
        }),
        rduel_settings_content.deep_view() == (RduelSettingsContentModel {
            atcoder_user: rduel_settings_content.atcoder_user.deep_view(),
            server_url: rduel_settings_content.server_url.deep_view(),
        }),
        local_rduel_config.deep_view() == (LocalRduelConfigModel {
            atcoder_user: local_rduel_config.atcoder_user.deep_view(),
            server_url: local_rduel_config.server_url.deep_view(),
        }),
{
}
} // verus!
