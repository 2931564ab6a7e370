use vstd::prelude::*;
use crate::prompts::ProviderSource;
use crate::session::opt_text;
use crate::time::{utc_formatted, utc_stamp_label};

verus! {

/// The LLM providers a user can connect, with what the settings panel shows
/// of each.
pub enum ProviderKind {
    Codex { account_id: Option<String> },
    OpenAiGeneric { base_url: String },
    Claude,
    GoogleOAuth,
}

/// The provider a user's requests will use, where it came from and when its
/// stored credentials last changed (nanoseconds since the Unix epoch).
pub struct LoadedProvider {
    pub kind: ProviderKind,
    pub source: ProviderSource,
    pub updated_at: Option<i64>,
}

/// The kinds of provider a user can sign in to from the settings panel.
#[derive(Clone, Copy, Debug, PartialEq, Eq)]
pub enum SignInKind {
    Codex,
    Claude,
}

/// What the provider settings panel shows.
pub struct ProviderStatusView {
    pub connected: bool,
    pub using_fallback: bool,
    pub label: String,
    pub detail: String,
    pub updated_label: String,
    pub selected_kind: SignInKind,
    pub connected_kind: Option<SignInKind>,
    pub codex_pending_user_code: Option<String>,
    pub claude_pending_auth_url: Option<String>,
}

/// The panel as plain values.
pub open spec fn status_view(v: ProviderStatusView) -> (bool, bool, Seq<char>, Seq<char>, Seq<char>, SignInKind, Option<SignInKind>, Option<Seq<char>>, Option<Seq<char>>) {
    (v.connected, v.using_fallback, v.label@, v.detail@, v.updated_label@, v.selected_kind, v.connected_kind,
        opt_text(v.codex_pending_user_code), opt_text(v.claude_pending_auth_url))
}

/// The label, detail line and connected kind the panel shows for a provider.
pub open spec fn provider_description(kind: ProviderKind, fallback: bool) -> (Seq<char>, Seq<char>, Option<SignInKind>) {
    match kind {
        ProviderKind::Codex { account_id } => ("Codex OAuth"@, match account_id {
            Some(a) => "Connected via OpenAI account "@ + a@ + "."@,
            None => "Connected via OpenAI device OAuth."@,
        }, Some(SignInKind::Codex)),
        ProviderKind::OpenAiGeneric { base_url } => (if fallback {
            "Server Provider"@
        } else {
            "OpenAI-Compatible"@
        }, "Requests route through "@ + base_url@ + "."@, None),
        ProviderKind::Claude => ("Anthropic OAuth"@, "Anthropic OAuth tokens are stored for this account."@, Some(SignInKind::Claude)),
        ProviderKind::GoogleOAuth => ("Google OAuth"@, "Google OAuth tokens are stored for this account."@, None),
    }
}

/// What the panel shows for a user's provider and pending sign-ins.
pub open spec fn provider_status(
    loaded: Option<LoadedProvider>,
    codex_code: Option<Seq<char>>,
    claude_url: Option<Seq<char>>,
) -> (bool, bool, Seq<char>, Seq<char>, Seq<char>, SignInKind, Option<SignInKind>, Option<Seq<char>>, Option<Seq<char>>) {
    match loaded {
        Some(p) => {
            let fallback = p.source == ProviderSource::ServerFallback;
            let d = provider_description(p.kind, fallback);
            let selected = match d.2 {
                Some(k) => k,
                None => if claude_url is Some {
                    SignInKind::Claude
                } else {
                    SignInKind::Codex
                },
            };
            let updated = match p.updated_at {
                Some(t) => "Updated "@ + utc_formatted(t, "%Y-%m-%d %H:%M UTC"@),
                None => "Server-scoped fallback"@,
            };
            (true, fallback, d.0, d.1, updated, selected, d.2, codex_code, claude_url)
        },
        None => (
            false,
            false,
            "No provider connected"@,
            "Connect Codex or Anthropic here. The site stores encrypted OAuth tokens server-side and uses them for storm generation."@,
            "No stored runtime credentials"@,
            if claude_url is Some {
                SignInKind::Claude
            } else {
                SignInKind::Codex
            },
            None,
            codex_code,
            claude_url,
        ),
    }
}

/// Describes a user's provider for the settings panel; `codex_pending_user_code`
/// and `claude_pending_auth_url` come from sign-ins still in progress.
pub fn provider_status_view(
    loaded: Option<&LoadedProvider>,
    codex_pending_user_code: Option<String>,
    claude_pending_auth_url: Option<String>,
) -> (v: ProviderStatusView)
    ensures
        status_view(v) == provider_status(
            match loaded {
                Some(p) => Some(*p),
                None => None,
            },
            opt_text(codex_pending_user_code),
            opt_text(claude_pending_auth_url),
        ),
{
    let claude_pending = claude_pending_auth_url.is_some();
    match loaded {
        Some(p) => {
            let fallback = match p.source {
                ProviderSource::ServerFallback => true,
                ProviderSource::Stored => false,
            };
            let (label, detail, connected_kind) = match &p.kind {
                ProviderKind::Codex { account_id } => {
                    let detail = match account_id {
                        Some(a) => {
                            let mut d = String::from_str("Connected via OpenAI account ");
                            d.append(a.as_str());
                            d.append(".");
                            d
                        },
                        None => String::from_str("Connected via OpenAI device OAuth."),
                    };
                    (String::from_str("Codex OAuth"), detail, Some(SignInKind::Codex))
                },
                ProviderKind::OpenAiGeneric { base_url } => {
                    let label = if fallback {
                        String::from_str("Server Provider")
                    } else {
                        String::from_str("OpenAI-Compatible")
                    };
                    let mut d = String::from_str("Requests route through ");
                    d.append(base_url.as_str());
                    d.append(".");
                    (label, d, None)
                },
                ProviderKind::Claude => (
                    String::from_str("Anthropic OAuth"),
                    String::from_str("Anthropic OAuth tokens are stored for this account."),
                    Some(SignInKind::Claude),
                ),
                ProviderKind::GoogleOAuth => (
                    String::from_str("Google OAuth"),
                    String::from_str("Google OAuth tokens are stored for this account."),
                    None,
                ),
            };
            let selected_kind = match connected_kind {
                Some(k) => k,
                None => if claude_pending {
                    SignInKind::Claude
                } else {
                    SignInKind::Codex
                },
            };
            let updated_label = match p.updated_at {
                Some(t) => {
                    let mut u = String::from_str("Updated ");
                    let stamp = utc_stamp_label(t);
                    u.append(stamp.as_str());
                    u
                },
                None => String::from_str("Server-scoped fallback"),
            };
            ProviderStatusView {
                connected: true,
                using_fallback: fallback,
                label,
                detail,
                updated_label,
                selected_kind,
                connected_kind,
                codex_pending_user_code,
                claude_pending_auth_url,
            }
        },
        None => ProviderStatusView {
            connected: false,
            using_fallback: false,
            label: String::from_str("No provider connected"),
            detail: String::from_str(
                "Connect Codex or Anthropic here. The site stores encrypted OAuth tokens server-side and uses them for storm generation.",
            ),
            updated_label: String::from_str("No stored runtime credentials"),
            selected_kind: if claude_pending {
                SignInKind::Claude
            } else {
                SignInKind::Codex
            },
            connected_kind: None,
            codex_pending_user_code,
            claude_pending_auth_url,
        },
    }
}

/// What the settings panel says of a user's provider: it is connected exactly
/// when a provider is loaded, marked as the fallback exactly when it is the
/// server's; the label names the provider (`Codex OAuth`, `Server Provider`
/// or `OpenAI-Compatible`, `Anthropic OAuth`, `Google OAuth`); the kind it
/// shows as connected is the Codex or Anthropic sign-in for those providers
/// and none else; the kind selected for signing in is the connected one, else
/// the Anthropic sign-in while one is pending, else Codex; the update line gives the stored
/// credentials' time; pending sign-in details pass through unchanged.
pub proof fn law_provider_panel(loaded: Option<LoadedProvider>, codex_code: Option<Seq<char>>, claude_url: Option<Seq<char>>)
    ensures
        ({
            let v = provider_status(loaded, codex_code, claude_url);
            let connected_kind = match loaded {
                Some(p) => match p.kind {
                    ProviderKind::Codex { .. } => Some(SignInKind::Codex),
                    ProviderKind::Claude => Some(SignInKind::Claude),
                    _ => None,
                },
                None => None,
            };
            &&& v.0 == loaded is Some
            &&& v.1 == (loaded is Some && loaded->0.source == ProviderSource::ServerFallback)
            &&& v.2 == match loaded {
                None => "No provider connected"@,
                Some(p) => match p.kind {
                    ProviderKind::Codex { .. } => "Codex OAuth"@,
                    ProviderKind::OpenAiGeneric { .. } => if p.source == ProviderSource::ServerFallback {
                        "Server Provider"@
                    } else {
                        "OpenAI-Compatible"@
                    },
                    ProviderKind::Claude => "Anthropic OAuth"@,
                    ProviderKind::GoogleOAuth => "Google OAuth"@,
                },
            }
            &&& v.4 == match loaded {
                None => "No stored runtime credentials"@,
                Some(p) => match p.updated_at {
                    Some(t) => "Updated "@ + utc_formatted(t, "%Y-%m-%d %H:%M UTC"@),
                    None => "Server-scoped fallback"@,
                },
            }
            &&& v.6 == connected_kind
            &&& v.5 == match connected_kind {
                Some(k) => k,
                None => if claude_url is Some { SignInKind::Claude } else { SignInKind::Codex },
            }
            &&& v.7 == codex_code
            &&& v.8 == claude_url
        }),
{
}

/// The provider a user's requests use: their stored one, else the server's
/// fallback, else none.
pub fn choose_provider(stored: Option<(ProviderKind, i64)>, fallback: Option<ProviderKind>) -> (r: Option<LoadedProvider>)
    ensures
        match stored {
            Some(s) => r matches Some(p) && p.kind == s.0 && p.source == ProviderSource::Stored && p.updated_at == Some(s.1),
            None => match fallback {
                Some(f) => r matches Some(p) && p.kind == f && p.source == ProviderSource::ServerFallback && p.updated_at is None,
                None => r is None,
            },
        },
{
    match stored {
        Some((kind, updated)) => Some(LoadedProvider { kind, source: ProviderSource::Stored, updated_at: Some(updated) }),
        None => match fallback {
            Some(kind) => Some(LoadedProvider { kind, source: ProviderSource::ServerFallback, updated_at: None }),
            None => None,
        },
    }
}

} // verus!
