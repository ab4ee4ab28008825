//! The external SQL folder as the user sees it: per-user settings, the
//! status answered to the settings page, the decisions of the connect and
//! update requests, and the synthesis of a virtual mail folder from items.

use vstd::prelude::*;

use base64::Engine;

use crate::error::{AppError, AppErrorKind};
use crate::external_sql::{user_message_spec, ExternalError, ExternalItem, VerifiedAccount};
use crate::messages::{
    AddressEntry, AttachmentInfo, ListMessagesResponse, MessageDetailResponse, MessageSummary,
    ThreadMessage,
};
use crate::text::{
    ends_with_char, is_unicode_whitespace, lemma_trim_ws_ends, lemma_trim_ws_fixed,
    opt_string_view, push_char, seq_ends_with_char, seq_starts_with, starts_with,
    trim, trim_start_char, trim_start_matches_char, trim_ws,
};

verus! {

/// Per-user settings for the external SQL folder (connected account + system).
#[derive(Debug, Clone, PartialEq, Eq)]
pub struct ExternalFolderSettings {
    pub enabled: bool,
    pub account_id: Option<i64>,
    pub account_email: Option<String>,
    pub system: Option<i64>,
    pub base_url: Option<String>,
    pub connected_at: Option<String>,
}

/// The settings of a user who never connected: disabled and empty.
pub fn default_external_folder_settings() -> (r: ExternalFolderSettings)
    ensures
        !r.enabled,
        r.account_id is None,
        r.account_email is None,
        r.system is None,
        r.base_url is None,
        r.connected_at is None,
{
    ExternalFolderSettings {
        enabled: false,
        account_id: None,
        account_email: None,
        system: None,
        base_url: None,
        connected_at: None,
    }
}

/// The settings stored in a row; the `enabled` column is an integer flag.
pub fn settings_from_row(
    enabled: i32,
    account_id: Option<i64>,
    account_email: Option<String>,
    base_url: Option<String>,
    system: Option<i64>,
    connected_at: Option<String>,
) -> (r: ExternalFolderSettings)
    ensures
        r.enabled == (enabled != 0),
        r.account_id == account_id,
        r.account_email == account_email,
        r.base_url == base_url,
        r.system == system,
        r.connected_at == connected_at,
{
    ExternalFolderSettings { enabled: enabled != 0, account_id, account_email, system, base_url, connected_at }
}

/// What the settings page shows about the external folder.
#[derive(Debug)]
pub struct ExternalFolderStatus {
    /// The server has a valid private config.
    pub configured: bool,
    /// The feature can be used for this account (configured + mapped domain).
    pub available: bool,
    pub folder_name: Option<String>,
    pub enabled: bool,
    pub connected: bool,
    pub system: Option<i64>,
    pub account_email: Option<String>,
    pub base_url: Option<String>,
    pub connected_at: Option<String>,
    pub count: u64,
}

/// Body of the connect request.
#[derive(Debug, Clone)]
pub struct ConnectRequest {
    pub usuario: String,
    pub senha: String,
    /// Optional image base URL (e.g. "https://host/THUMBS/").
    pub base_url: Option<String>,
}

/// Body of the settings update request.
#[derive(Debug, Clone)]
pub struct UpdateExternalFolderRequest {
    pub enabled: Option<bool>,
    /// When present, replaces the stored image base URL (empty clears it).
    pub base_url: Option<String>,
}

/// The HTTP class of an external failure: a missing or failing source is
/// 503, bad credentials or a foreign system are 400.
pub open spec fn external_error_kind(err: ExternalError) -> AppErrorKind {
    match err {
        ExternalError::InvalidCredentials | ExternalError::SystemMismatch => AppErrorKind::BadRequest,
        _ => AppErrorKind::ServiceUnavailable,
    }
}

/// Answer an external failure with its user message and HTTP class.
pub fn external_error_to_app(err: ExternalError) -> (r: AppError)
    ensures
        r@ == (external_error_kind(err), user_message_spec(err)),
{
    let message = err.user_message();
    match err {
        ExternalError::InvalidCredentials | ExternalError::SystemMismatch => AppError::BadRequest(
            message,
        ),
        _ => AppError::ServiceUnavailable(message),
    }
}

/// The folder can be used by this account: the server is configured and
/// the account's e-mail domain maps to a system.
pub open spec fn is_available(configured: bool, domain_system: Option<i64>) -> bool {
    configured && domain_system is Some
}

/// The system whose items are counted for the status, if any: only an
/// enabled, connected folder that is available is counted.
pub open spec fn count_target_spec(
    settings: ExternalFolderSettings,
    configured: bool,
    domain_system: Option<i64>,
) -> Option<i64> {
    if settings.enabled && settings.account_id is Some && is_available(configured, domain_system) {
        settings.system
    } else {
        None
    }
}

/// Which system to count for the status page (`None`: do not count).
pub fn status_count_target(
    settings: &ExternalFolderSettings,
    configured: bool,
    domain_system: Option<i64>,
) -> (r: Option<i64>)
    ensures
        r == count_target_spec(*settings, configured, domain_system),
{
    if settings.enabled && settings.account_id.is_some() && configured && domain_system.is_some() {
        settings.system
    } else {
        None
    }
}

/// Assemble the status. `count_result` is the outcome of counting the
/// system that [`status_count_target`] names (`None` when it names none);
/// a failed count shows as zero.
pub fn build_status(
    settings: ExternalFolderSettings,
    configured: bool,
    folder_name: &str,
    domain_system: Option<i64>,
    count_result: Option<Result<u64, ExternalError>>,
) -> (r: ExternalFolderStatus)
    requires
        count_result is Some ==> count_target_spec(settings, configured, domain_system) is Some,
    ensures
        r.configured == configured,
        r.available == is_available(configured, domain_system),
        opt_string_view(r.folder_name) == (if configured {
            Some(folder_name@)
        } else {
            None
        }),
        r.enabled == settings.enabled,
        r.connected == settings.account_id is Some,
        r.system == (match settings.system {
            Some(s) => Some(s),
            None => domain_system,
        }),
        r.account_email == settings.account_email,
        r.base_url == settings.base_url,
        r.connected_at == settings.connected_at,
        r.count == (match count_result {
            Some(Ok(c)) => c,
            _ => 0,
        }),
{
    let available = configured && domain_system.is_some();
    let count = match count_result {
        Some(Ok(c)) => c,
        _ => 0,
    };
    let system = match settings.system {
        Some(s) => Some(s),
        None => domain_system,
    };
    ExternalFolderStatus {
        configured,
        available,
        folder_name: if configured {
            Some(folder_name.to_owned())
        } else {
            None
        },
        enabled: settings.enabled,
        connected: settings.account_id.is_some(),
        system,
        account_email: settings.account_email,
        base_url: settings.base_url,
        connected_at: settings.connected_at,
        count,
    }
}

/// Law of the status, converse side: an enabled, connected folder that is
/// available has its stored system counted, whatever the other stored
/// fields (e-mail, image base URL, connection time) hold.
pub proof fn lemma_status_counts_every_active_folder(
    settings: ExternalFolderSettings,
    configured: bool,
    domain_system: Option<i64>,
)
    ensures
        settings.enabled && settings.account_id is Some && configured && domain_system is Some
            ==> count_target_spec(settings, configured, domain_system) == settings.system,
        count_target_spec(settings, configured, domain_system) == count_target_spec(
            ExternalFolderSettings {
                account_email: None,
                base_url: None,
                connected_at: None,
                ..settings
            },
            configured,
            domain_system,
        ),
{
}

/// Law of the status: items are only counted for a folder that is enabled,
/// connected and available, so a non-zero count implies all three.
pub proof fn lemma_status_counts_only_active_folders(
    settings: ExternalFolderSettings,
    configured: bool,
    domain_system: Option<i64>,
    count_result: Option<Result<u64, ExternalError>>,
)
    requires
        count_result is Some ==> count_target_spec(settings, configured, domain_system) is Some,
    ensures
        (match count_result {
            Some(Ok(c)) => c,
            _ => 0,
        }) > 0 ==> settings.enabled && settings.account_id is Some && is_available(
            configured,
            domain_system,
        ),
{
}

/// What `url::Url::parse` reports as the scheme of `input` (lowercase), or
/// `None` when it refuses the input.
pub uninterp spec fn parsed_url_scheme(input: Seq<char>) -> Option<Seq<char>>;

/// Wraps `url::Url::parse` and reads the scheme of the parsed URL with
/// `Url::scheme`. Claimed: the outcome is a function of the input. Which
/// inputs the parser accepts is not stated.
#[verifier::external_body]
fn url_scheme(input: &str) -> (r: Option<String>)
    ensures
        opt_string_view(r) == parsed_url_scheme(input@),
{
    match url::Url::parse(input) {
        Ok(u) => Some(u.scheme().to_owned()),
        Err(_) => None,
    }
}

/// Whether a parse outcome is an `http` or `https` URL.
pub open spec fn is_web_scheme(scheme: Option<Seq<char>>) -> bool {
    scheme == Some("http"@) || scheme == Some("https"@)
}

/// Whether a reported scheme is `http` or `https`.
fn is_web_scheme_exec(scheme: &String) -> (r: bool)
    ensures
        r == is_web_scheme(Some(scheme@)),
{
    scheme.eq(&"http".to_owned()) || scheme.eq(&"https".to_owned())
}

/// Outcome of normalizing an image base URL: `Ok(None)` for a missing or
/// blank value, an error message for a value that does not parse or is not
/// http(s), else the trimmed value ending with `/`.
pub open spec fn normalize_base_url_spec(raw: Option<Seq<char>>) -> Result<
    Option<Seq<char>>,
    Seq<char>,
> {
    match raw {
        None => Ok(None),
        Some(r) => {
            let value = trim_ws(r);
            if value.len() == 0 {
                Ok(None)
            } else if parsed_url_scheme(value) is None {
                Err("URL base inválida."@)
            } else if !is_web_scheme(parsed_url_scheme(value)) {
                Err("A URL base deve começar com http:// ou https://."@)
            } else if seq_ends_with_char(value, '/') {
                Ok(Some(value))
            } else {
                Ok(Some(value.push('/')))
            }
        },
    }
}

/// The view of a normalization result; errors are answered with 400.
pub open spec fn normalized_view(r: Result<Option<String>, AppError>) -> Result<
    Option<Seq<char>>,
    Seq<char>,
> {
    match r {
        Ok(v) => Ok(opt_string_view(v)),
        Err(e) => Err(e@.1),
    }
}

/// Validate and normalize the optional image base URL; keeps (or adds) a
/// trailing slash.
pub fn normalize_base_url(raw: Option<&str>) -> (r: Result<Option<String>, AppError>)
    ensures
        normalized_view(r) == normalize_base_url_spec(
            match raw {
                Some(s) => Some(s@),
                None => None,
            },
        ),
        r matches Err(e) ==> e@.0 == AppErrorKind::BadRequest,
{
    let Some(raw) = raw else {
        return Ok(None);
    };
    let value = trim(raw);
    if value.unicode_len() == 0 {
        return Ok(None);
    }
    let Some(scheme) = url_scheme(value) else {
        return Err(AppError::BadRequest("URL base inválida.".to_owned()));
    };
    if !is_web_scheme_exec(&scheme) {
        return Err(AppError::BadRequest("A URL base deve começar com http:// ou https://.".to_owned()));
    }
    let mut value_owned = value.to_owned();
    if !ends_with_char(value, '/') {
        push_char(&mut value_owned, '/');
    }
    Ok(Some(value_owned))
}

/// Law of the base URL: an accepted, non-blank base URL is the trimmed input,
/// parses as http(s), and ends with a slash, so a relative image reference
/// can be appended to it.
pub proof fn lemma_normalized_base_url_ends_with_slash(raw: Seq<char>)
    ensures
        normalize_base_url_spec(Some(raw)) matches Ok(Some(v)) ==> {
            &&& seq_ends_with_char(v, '/')
            &&& is_web_scheme(parsed_url_scheme(trim_ws(raw)))
            &&& (v == trim_ws(raw) || v == trim_ws(raw).push('/'))
        },
{
}

/// Laws of re-normalizing a normalized base URL. When the trimmed input
/// already ended with a slash, normalizing the result again gives it back.
/// When a slash was added, the same holds provided the URL parser reports
/// an http(s) scheme for the result; no contract here states that the
/// parser keeps accepting a URL after a slash is appended.
pub proof fn lemma_normalize_base_url_idempotent(raw: Seq<char>)
    ensures
        normalize_base_url_spec(Some(raw)) matches Ok(Some(v)) ==> (v == trim_ws(raw)
            ==> normalize_base_url_spec(Some(v)) == Ok::<Option<Seq<char>>, Seq<char>>(Some(v))),
        normalize_base_url_spec(Some(raw)) matches Ok(Some(v)) ==> (is_web_scheme(
            parsed_url_scheme(v),
        ) ==> normalize_base_url_spec(Some(v)) == Ok::<Option<Seq<char>>, Seq<char>>(Some(v))),
{
    if let Ok(Some(v)) = normalize_base_url_spec(Some(raw)) {
        let t = trim_ws(raw);
        lemma_trim_ws_ends(raw);
        assert(t.len() > 0);
        if v == t {
            lemma_trim_ws_fixed(v);
        } else {
            assert(v == t.push('/'));
            assert(v[0] == t[0]);
            assert(v.last() == '/');
            lemma_trim_ws_fixed(v);
        }
        assert(seq_ends_with_char(v, '/'));
    }
}

/// Law of the disabled feature: every query of the disabled client fails
/// with `NotConfigured`, which is answered with 503 and the message that
/// the feature is not configured on the server.
pub proof fn lemma_unconfigured_is_unavailable()
    ensures
        external_error_kind(ExternalError::NotConfigured) == AppErrorKind::ServiceUnavailable,
        user_message_spec(ExternalError::NotConfigured)
            == "Este recurso não está configurado no servidor."@,
{
}

/// Check the connect request before any account lookup. Refuses (503) when
/// the server is not configured, (400) when the e-mail domain maps to no
/// system, and (400) when the trimmed user or the password is empty.
/// Otherwise yields the domain's system and the trimmed user.
pub fn connect_precheck(
    configured: bool,
    domain_system: Option<i64>,
    usuario: &str,
    senha: &str,
) -> (r: Result<(i64, String), AppError>)
    ensures
        !configured ==> (r matches Err(e) && e@ == (
            AppErrorKind::ServiceUnavailable,
            "Este recurso não está configurado no servidor."@,
        )),
        configured && domain_system is None ==> (r matches Err(e) && e@ == (
            AppErrorKind::BadRequest,
            "O domínio do seu e-mail não está habilitado para este recurso."@,
        )),
        configured && domain_system is Some && (trim_ws(usuario@).len() == 0 || senha@.len()
            == 0) ==> (r matches Err(e) && e@ == (
            AppErrorKind::BadRequest,
            "Informe usuário e senha."@,
        )),
        configured && domain_system is Some && trim_ws(usuario@).len() > 0 && senha@.len() > 0
            ==> (r matches Ok((system, user)) && Some(system) == domain_system && user@ == trim_ws(
            usuario@,
        )),
{
    if !configured {
        return Err(AppError::ServiceUnavailable("Este recurso não está configurado no servidor.".to_owned()));
    }
    let Some(system) = domain_system else {
        return Err(AppError::BadRequest("O domínio do seu e-mail não está habilitado para este recurso.".to_owned()));
    };
    let user = trim(usuario);
    if user.unicode_len() == 0 || senha.unicode_len() == 0 {
        return Err(AppError::BadRequest("Informe usuário e senha.".to_owned()));
    }
    Ok((system, user.to_owned()))
}

/// Accept the verified account only when it belongs to the system of the
/// user's e-mail domain; a failed verification keeps its own answer.
pub fn check_verified_account(
    verified: Result<VerifiedAccount, ExternalError>,
    system: i64,
) -> (r: Result<VerifiedAccount, AppError>)
    ensures
        match verified {
            Err(e) => r matches Err(a) && a@ == (external_error_kind(e), user_message_spec(e)),
            Ok(acc) => if acc.system == system {
                r == Ok::<VerifiedAccount, AppError>(acc)
            } else {
                r matches Err(a) && a@ == (
                    AppErrorKind::BadRequest,
                    user_message_spec(ExternalError::SystemMismatch),
                )
            },
        },
{
    match verified {
        Err(e) => Err(external_error_to_app(e)),
        Ok(acc) => {
            if acc.system != system {
                Err(external_error_to_app(ExternalError::SystemMismatch))
            } else {
                Ok(acc)
            }
        },
    }
}

/// What is stored for a verified connection, besides the encrypted password.
#[derive(Debug)]
pub struct ConnectionRecord {
    pub account_id: i64,
    pub account_email: String,
    pub system: i64,
    pub base_url: Option<String>,
}

/// The record saved for a verified account and the normalized base URL; the
/// account id is stored as a signed 64-bit integer (reinterpreting its bits).
pub fn connection_record(verified: VerifiedAccount, base_url: Option<String>) -> (r:
    ConnectionRecord)
    ensures
        r.account_id == verified.id as i64,
        r.account_email == verified.email,
        r.system == verified.system,
        r.base_url == base_url,
{
    ConnectionRecord {
        account_id: verified.id as i64,
        account_email: verified.email,
        system: verified.system,
        base_url,
    }
}

/// The writes a settings update makes.
#[derive(Debug)]
pub struct SettingsUpdatePlan {
    /// New value of the enabled flag, when the request sets it.
    pub enabled: Option<bool>,
    /// New stored base URL (`Some(None)` clears it), when the request sets it.
    pub base_url: Option<Option<String>>,
}

/// Decide a settings update against the stored settings. Enabling a folder
/// that has no connected account is refused (400); a base URL that does not
/// normalize is refused as [`normalize_base_url`] says. Otherwise the plan
/// writes exactly the fields that the request carries.
pub fn plan_settings_update(
    current: &ExternalFolderSettings,
    body: &UpdateExternalFolderRequest,
) -> (r: Result<SettingsUpdatePlan, AppError>)
    ensures
        body.enabled == Some(true) && current.account_id is None ==> (r matches Err(e) && e@ == (
            AppErrorKind::BadRequest,
            "Conecte uma conta antes de ativar."@,
        )),
        !(body.enabled == Some(true) && current.account_id is None) ==> match normalize_base_url_spec(
            opt_string_view(body.base_url),
        ) {
            Err(m) => r matches Err(e) && e@ == (AppErrorKind::BadRequest, m),
            Ok(normalized) => r matches Ok(plan) && plan.enabled == body.enabled && (match plan.base_url {
                Some(b) => body.base_url is Some && opt_string_view(b) == normalized,
                None => body.base_url is None,
            }),
        },
{
    if body.enabled == Some(true) && current.account_id.is_none() {
        return Err(AppError::BadRequest("Conecte uma conta antes de ativar.".to_owned()));
    }
    let raw = match &body.base_url {
        Some(b) => Some(b.as_str()),
        None => None,
    };
    let normalized = normalize_base_url(raw)?;
    let base_url = if body.base_url.is_some() {
        Some(normalized)
    } else {
        None
    };
    Ok(SettingsUpdatePlan { enabled: body.enabled, base_url })
}

/// The entity that stands for an ampersand.
pub open spec fn amp_entity() -> Seq<char> {
    seq!['&', 'a', 'm', 'p', ';']
}

/// The entity that stands for `<`.
pub open spec fn lt_entity() -> Seq<char> {
    seq!['&', 'l', 't', ';']
}

/// The entity that stands for `>`.
pub open spec fn gt_entity() -> Seq<char> {
    seq!['&', 'g', 't', ';']
}

/// The entity that stands for a double quote.
pub open spec fn quot_entity() -> Seq<char> {
    seq!['&', 'q', 'u', 'o', 't', ';']
}

/// How one character is written in escaped HTML text.
pub open spec fn escape_char(c: char) -> Seq<char> {
    if c == '&' {
        amp_entity()
    } else if c == '<' {
        lt_entity()
    } else if c == '>' {
        gt_entity()
    } else if c == '"' {
        quot_entity()
    } else {
        seq![c]
    }
}

/// `s` with `&`, `<`, `>` and `"` replaced by their entities.
pub open spec fn escape_html_spec(s: Seq<char>) -> Seq<char>
    decreases s.len(),
{
    if s.len() == 0 {
        Seq::empty()
    } else {
        escape_char(s[0]) + escape_html_spec(s.drop_first())
    }
}

/// Reading escaped text back: each of the four entities stands for its
/// character, every other character for itself.
pub open spec fn unescape_html_spec(t: Seq<char>) -> Seq<char>
    decreases t.len(),
{
    if t.len() == 0 {
        Seq::empty()
    } else if seq_starts_with(t, amp_entity()) {
        seq!['&'] + unescape_html_spec(t.skip(5))
    } else if seq_starts_with(t, lt_entity()) {
        seq!['<'] + unescape_html_spec(t.skip(4))
    } else if seq_starts_with(t, gt_entity()) {
        seq!['>'] + unescape_html_spec(t.skip(4))
    } else if seq_starts_with(t, quot_entity()) {
        seq!['"'] + unescape_html_spec(t.skip(6))
    } else {
        seq![t[0]] + unescape_html_spec(t.drop_first())
    }
}

proof fn lemma_escape_push(s: Seq<char>, c: char)
    ensures
        escape_html_spec(s.push(c)) == escape_html_spec(s) + escape_char(c),
    decreases s.len(),
{
    if s.len() == 0 {
        assert(s.push(c).drop_first() =~= Seq::<char>::empty());
        assert(s.push(c)[0] == c);
        assert(escape_html_spec(Seq::<char>::empty()) =~= Seq::<char>::empty());
        assert(s =~= Seq::<char>::empty());
        assert(escape_html_spec(s.push(c)) =~= escape_char(c));
    } else {
        assert(s.push(c).drop_first() =~= s.drop_first().push(c));
        lemma_escape_push(s.drop_first(), c);
        assert(escape_html_spec(s.push(c)) =~= escape_char(s[0]) + (escape_html_spec(
            s.drop_first(),
        ) + escape_char(c)));
    }
}

proof fn lemma_unescape_escaped_char(c: char, t: Seq<char>)
    ensures
        unescape_html_spec(escape_char(c) + t) == seq![c] + unescape_html_spec(t),
{
    let e = escape_char(c) + t;
    if c == '&' {
        assert(e.subrange(0, 5) =~= amp_entity());
        assert(e.skip(5) =~= t);
    } else if c == '<' {
        assert(e[1] == 'l');
        assert(e.subrange(0, 4) =~= lt_entity());
        assert(e.skip(4) =~= t);
    } else if c == '>' {
        assert(e[1] == 'g');
        assert(e.subrange(0, 4) =~= gt_entity());
        assert(e.skip(4) =~= t);
    } else if c == '"' {
        assert(e[1] == 'q');
        assert(e.subrange(0, 6) =~= quot_entity());
        assert(e.skip(6) =~= t);
    } else {
        assert(e[0] == c);
        assert(e.drop_first() =~= t);
    }
}

/// Law of HTML escaping: reading the escaped text back gives the original
/// text, and the escaped text holds no `<`, `>` or `"`, so it cannot open a
/// tag or close an attribute.
pub proof fn lemma_escape_html_laws(s: Seq<char>)
    ensures
        unescape_html_spec(escape_html_spec(s)) == s,
        forall|i: int|
            0 <= i < escape_html_spec(s).len() ==> {
                let c = #[trigger] escape_html_spec(s)[i];
                c != '<' && c != '>' && c != '"'
            },
    decreases s.len(),
{
    if s.len() == 0 {
    } else {
        lemma_escape_html_laws(s.drop_first());
        lemma_unescape_escaped_char(s[0], escape_html_spec(s.drop_first()));
        assert(seq![s[0]] + s.drop_first() =~= s);
        let head = escape_char(s[0]);
        let tail = escape_html_spec(s.drop_first());
        assert forall|i: int| 0 <= i < head.len() implies head[i] != '<' && head[i] != '>'
            && head[i] != '"' by {}
        assert forall|i: int| 0 <= i < escape_html_spec(s).len() implies {
            let c = #[trigger] escape_html_spec(s)[i];
            c != '<' && c != '>' && c != '"'
        } by {
            if i < head.len() {
                assert(escape_html_spec(s)[i] == head[i]);
            } else {
                assert(escape_html_spec(s)[i] == tail[i - head.len()]);
            }
        }
    }
}

/// Escape `&`, `<`, `>` and `"` so that `input` shows as text inside HTML.
pub fn escape_html(input: &str) -> (r: String)
    ensures
        r@ == escape_html_spec(input@),
{
    let n = input.unicode_len();
    let mut out = String::new();
    let mut i: usize = 0;
    while i < n
        invariant
            n == input@.len(),
            i <= n,
            out@ == escape_html_spec(input@.subrange(0, i as int)),
        decreases n - i,
    {
        let c = input.get_char(i);
        proof {
            assert(input@.subrange(0, i + 1) =~= input@.subrange(0, i as int).push(c));
            lemma_escape_push(input@.subrange(0, i as int), c);
        }
        if c == '&' {
            proof {
                reveal_strlit("&amp;");
                assert("&amp;"@ =~= amp_entity());
            }
            out.append("&amp;");
        } else if c == '<' {
            proof {
                reveal_strlit("&lt;");
                assert("&lt;"@ =~= lt_entity());
            }
            out.append("&lt;");
        } else if c == '>' {
            proof {
                reveal_strlit("&gt;");
                assert("&gt;"@ =~= gt_entity());
            }
            out.append("&gt;");
        } else if c == '"' {
            proof {
                reveal_strlit("&quot;");
                assert("&quot;"@ =~= quot_entity());
            }
            out.append("&quot;");
        } else {
            push_char(&mut out, c);
            assert(out@ =~= escape_html_spec(input@.subrange(0, i as int)) + seq![c]);
        }
        i = i + 1;
    }
    assert(input@.subrange(0, n as int) =~= input@);
    out
}

fn clone_opt_string(o: &Option<String>) -> (r: Option<String>)
    ensures
        r == *o,
{
    match o {
        Some(v) => Some(v.clone()),
        None => None,
    }
}

/// A summary row built from an item: the fields that an item has are
/// copied, the others take fixed values of an unread, single-message thread.
pub open spec fn summary_of(
    item: ExternalItem,
    folder_name: Seq<char>,
    folder_id: Seq<char>,
    r: MessageSummary,
) -> bool {
    &&& r.uid == item.id
    &&& r.folder_id@ == folder_id
    &&& r.folder_name@ == folder_name
    &&& r.subject == item.subject
    &&& r.from_address@ == Seq::<char>::empty()
    &&& r.from_name == item.sender
    &&& r.to_addresses@ == "[]"@
    &&& r.date == item.date
    &&& r.flags@ == Seq::<char>::empty()
    &&& r.size == 0
    &&& !r.has_attachments
    &&& r.snippet == item.snippet
    &&& r.reaction is None
    &&& r.tags@.len() == 0
    &&& r.thread_count == 1
    &&& r.unread_count == 1
}

/// Law of the folder id: every summary row carries the folder id it was
/// given, unchanged, and so does the opened view of an item; a summary
/// describes the item it was made from (its id, subject, sender, date and
/// snippet) and the folder name it was given.
pub proof fn lemma_summary_carries_folder_id(
    item: ExternalItem,
    folder_name: Seq<char>,
    folder_id: Seq<char>,
    r: MessageSummary,
)
    requires
        summary_of(item, folder_name, folder_id, r),
    ensures
        r.folder_id@ == folder_id,
        r.folder_name@ == folder_name,
        r.uid == item.id,
        r.subject@ == item.subject@,
        r.from_name@ == item.sender@,
        r.date@ == item.date@,
        r.snippet@ == item.snippet@,
{
}

/// The listing row of an item; `folder_id` is the folder's encrypted id.
pub fn item_to_summary(item: &ExternalItem, folder_name: &str, folder_id: &str) -> (r:
    MessageSummary)
    ensures
        summary_of(*item, folder_name@, folder_id@, r),
{
    MessageSummary {
        uid: item.id,
        folder_id: folder_id.to_owned(),
        folder_name: folder_name.to_owned(),
        subject: item.subject.clone(),
        from_address: String::new(),
        from_name: item.sender.clone(),
        to_addresses: "[]".to_owned(),
        date: item.date.clone(),
        flags: String::new(),
        size: 0,
        has_attachments: false,
        snippet: item.snippet.clone(),
        reaction: None,
        tags: Vec::new(),
        thread_count: 1,
        unread_count: 1,
    }
}

/// Markup that shows an image (already a data URI) above the body.
pub open spec fn image_block(uri: Seq<char>) -> Seq<char> {
    "<div style=\"margin-bottom:12px;\"><img src=\""@ + uri
        + "\" alt=\"image\" style=\"max-width:100%;height:auto;border-radius:6px;\" /></div>"@
}

/// Opening of the block that shows plain text inside HTML.
pub open spec fn pre_open() -> Seq<char> {
    "<pre style=\"white-space: pre-wrap; word-break: break-word; font-family: inherit;\">"@
}

/// The HTML body of an opened item: the optional image, then the item's
/// HTML body, or else its text body escaped inside a `<pre>` block.
pub open spec fn detail_html_spec(
    body_html: Option<Seq<char>>,
    body_text: Option<Seq<char>>,
    image_uri: Option<Seq<char>>,
) -> Seq<char> {
    let image = match image_uri {
        Some(u) => image_block(u),
        None => Seq::empty(),
    };
    let body = match body_html {
        Some(b) => b,
        None => match body_text {
            Some(t) => pre_open() + escape_html_spec(t) + "</pre>"@,
            None => Seq::empty(),
        },
    };
    image + body
}

/// Laws of the detail HTML: an item's HTML body is shown verbatim after the
/// optional image block, whatever its text body is; the escaped `<pre>`
/// text is used only when there is no HTML body; with neither body only
/// the image block (if any) remains.
pub proof fn lemma_detail_html_prefers_html_body(
    body_html: Option<Seq<char>>,
    body_text: Option<Seq<char>>,
    image_uri: Option<Seq<char>>,
)
    ensures
        body_html matches Some(b) ==> detail_html_spec(body_html, body_text, image_uri) == (
        match image_uri {
            Some(u) => image_block(u),
            None => Seq::<char>::empty(),
        }) + b,
        body_html is None && body_text is Some ==> detail_html_spec(
            body_html,
            body_text,
            image_uri,
        ) == (match image_uri {
            Some(u) => image_block(u),
            None => Seq::<char>::empty(),
        }) + pre_open() + escape_html_spec(body_text->0) + "</pre>"@,
        body_html is None && body_text is None ==> detail_html_spec(
            body_html,
            body_text,
            image_uri,
        ) == (match image_uri {
            Some(u) => image_block(u),
            None => Seq::<char>::empty(),
        }),
{
    if body_html is None && body_text is Some {
        let img = match image_uri {
            Some(u) => image_block(u),
            None => Seq::<char>::empty(),
        };
        assert(img + (pre_open() + escape_html_spec(body_text->0) + "</pre>"@) =~= img + pre_open()
            + escape_html_spec(body_text->0) + "</pre>"@);
    }
    if body_html is None && body_text is None {
        let img = match image_uri {
            Some(u) => image_block(u),
            None => Seq::<char>::empty(),
        };
        assert(img + Seq::<char>::empty() =~= img);
    }
}

/// The opened view of an item; `folder_id` is the folder's encrypted id and
/// `image_uri` the item's image inlined as a data URI, if any. The plain
/// text is the item's text body, or its snippet when it has none.
pub fn item_to_detail(
    item: &ExternalItem,
    folder_name: &str,
    folder_id: &str,
    image_uri: Option<String>,
) -> (r: MessageDetailResponse)
    ensures
        r.uid == item.id,
        r.folder_id@ == folder_id@,
        r.folder_name@ == folder_name@,
        r.subject == item.subject,
        r.from_address@ == Seq::<char>::empty(),
        r.from_name == item.sender,
        r.to_addresses@.len() == 0,
        r.cc_addresses@.len() == 0,
        r.date == item.date,
        r.flags@.len() == 0,
        !r.has_attachments,
        opt_string_view(r.html) == Some(
            detail_html_spec(
                opt_string_view(item.body_html),
                opt_string_view(item.body_text),
                opt_string_view(image_uri),
            ),
        ),
        r.text == (match item.body_text {
            Some(t) => Some(t),
            None => Some(item.snippet),
        }),
        r.raw_headers@ == Seq::<char>::empty(),
        r.attachments@.len() == 0,
        r.thread@.len() == 0,
        r.email_theme is None,
        r.pgp_status is None,
{
    let mut html = String::new();
    if let Some(uri) = &image_uri {
        html.append("<div style=\"margin-bottom:12px;\"><img src=\"");
        html.append(uri.as_str());
        html.append("\" alt=\"image\" style=\"max-width:100%;height:auto;border-radius:6px;\" /></div>");
    }
    match &item.body_html {
        Some(body) => html.append(body.as_str()),
        None => {
            if let Some(text) = &item.body_text {
                html.append("<pre style=\"white-space: pre-wrap; word-break: break-word; font-family: inherit;\">");
                let escaped = escape_html(text.as_str());
                html.append(escaped.as_str());
                html.append("</pre>");
            }
        },
    }
    let text = match &item.body_text {
        Some(t) => Some(t.clone()),
        None => Some(item.snippet.clone()),
    };
    MessageDetailResponse {
        uid: item.id,
        folder_id: folder_id.to_owned(),
        folder_name: folder_name.to_owned(),
        subject: item.subject.clone(),
        from_address: String::new(),
        from_name: item.sender.clone(),
        to_addresses: Vec::<AddressEntry>::new(),
        cc_addresses: Vec::<AddressEntry>::new(),
        date: item.date.clone(),
        flags: Vec::new(),
        has_attachments: false,
        html: Some(html),
        text,
        raw_headers: String::new(),
        attachments: Vec::<AttachmentInfo>::new(),
        thread: Vec::<ThreadMessage>::new(),
        email_theme: None,
        pgp_status: None,
    }
}

/// The state in which the folder serves items: enabled and connected; the
/// items are those of the stored system.
pub open spec fn active_system_spec(settings: ExternalFolderSettings) -> Option<i64> {
    if settings.enabled && settings.account_id is Some {
        settings.system
    } else {
        None
    }
}

/// The system whose items the folder shows, or 404 when the folder is not
/// active (disabled, not connected, or without a system).
pub fn active_folder_system(settings: &ExternalFolderSettings) -> (r: Result<i64, AppError>)
    ensures
        match active_system_spec(*settings) {
            Some(s) => r == Ok::<i64, AppError>(s),
            None => r matches Err(e) && e@ == (AppErrorKind::NotFound, "A pasta não está ativa."@),
        },
{
    match settings.system {
        Some(s) if settings.enabled && settings.account_id.is_some() => Ok(s),
        _ => Err(AppError::NotFound("A pasta não está ativa.".to_owned())),
    }
}

/// The decimal digits, in order.
pub open spec fn decimal_digits() -> Seq<char> {
    seq!['0', '1', '2', '3', '4', '5', '6', '7', '8', '9']
}

/// The decimal representation of `n`, without leading zeros.
pub open spec fn decimal(n: nat) -> Seq<char>
    decreases n,
{
    if n < 10 {
        seq![decimal_digits()[n as int]]
    } else {
        decimal(n / 10).push(decimal_digits()[(n % 10) as int])
    }
}

fn digit_char(d: u32) -> (c: char)
    requires
        d < 10,
    ensures
        c == decimal_digits()[d as int],
{
    match d {
        0 => '0',
        1 => '1',
        2 => '2',
        3 => '3',
        4 => '4',
        5 => '5',
        6 => '6',
        7 => '7',
        8 => '8',
        _ => '9',
    }
}

fn push_decimal(out: &mut String, n: u32)
    ensures
        final(out)@ == old(out)@ + decimal(n as nat),
    decreases n,
{
    if n >= 10 {
        push_decimal(out, n / 10);
    }
    push_char(out, digit_char(n % 10));
    assert(decimal(n as nat) =~= if n < 10 {
        seq![decimal_digits()[(n % 10) as int]]
    } else {
        decimal((n / 10) as nat).push(decimal_digits()[(n % 10) as int])
    });
}

/// The 404 answered for an item that the external source does not have.
pub fn item_not_found(uid: u32) -> (r: AppError)
    ensures
        r@ == (AppErrorKind::NotFound, "Item "@ + decimal(uid as nat) + " não encontrado"@),
{
    let mut message = "Item ".to_owned();
    push_decimal(&mut message, uid);
    message.append(" não encontrado");
    AppError::NotFound(message)
}

/// The total shown for a listing: the counted total, or the number of listed
/// items when counting failed; reported as a `u32` (truncating).
pub open spec fn listing_total(count: Result<u64, ExternalError>, listed: nat) -> u64 {
    match count {
        Ok(c) => c,
        Err(_) => listed as u64,
    }
}

/// A page of the virtual folder: one summary per item, in order.
pub fn list_response(
    items: &Vec<ExternalItem>,
    count: Result<u64, ExternalError>,
    folder_name: &str,
    folder_id: &str,
    page: u32,
    per_page: u32,
) -> (r: ListMessagesResponse)
    ensures
        r.messages@.len() == items@.len(),
        forall|i: int|
            0 <= i < items@.len() ==> summary_of(
                #[trigger] items@[i],
                folder_name@,
                folder_id@,
                r.messages@[i],
            ),
        r.total_count == listing_total(count, items@.len()) as u32,
        r.page == page,
        r.per_page == per_page,
        !r.syncing,
{
    let n = items.len();
    let mut messages: Vec<MessageSummary> = Vec::new();
    let mut i: usize = 0;
    while i < n
        invariant
            n == items@.len(),
            i <= n,
            messages@.len() == i,
            forall|j: int|
                0 <= j < i ==> summary_of(items@[j], folder_name@, folder_id@, #[trigger] messages@[j]),
        decreases n - i,
    {
        messages.push(item_to_summary(&items[i], folder_name, folder_id));
        i = i + 1;
    }
    let total: u64 = match count {
        Ok(c) => c,
        Err(_) => n as u64,
    };
    ListMessagesResponse {
        messages,
        total_count: total as u32,
        page,
        per_page,
        syncing: false,
    }
}

/// The image to fetch for an opened item: both a stored base URL and an
/// image reference that holds more than whitespace are needed.
pub fn image_fetch_target<'a>(base_url: &'a Option<String>, image_ref: &'a Option<String>) -> (r:
    Option<(&'a str, &'a str)>)
    ensures
        match (base_url, image_ref) {
            (Some(b), Some(i)) if trim_ws(i@).len() > 0 => r matches Some((rb, ri)) && rb@ == b@
                && ri@ == i@,
            _ => r is None,
        },
{
    match (base_url, image_ref) {
        (Some(b), Some(i)) => {
            if trim(i.as_str()).unicode_len() > 0 {
                Some((b.as_str(), i.as_str()))
            } else {
                None
            }
        },
        _ => None,
    }
}

/// The largest image, in bytes, that is inlined.
pub const MAX_IMAGE_BYTES: usize = 8 * 1024 * 1024;

/// The URL of an item's image: the base URL followed by the reference
/// without its leading slashes.
pub open spec fn image_url_spec(base_url: Seq<char>, image_ref: Seq<char>) -> Seq<char> {
    base_url + trim_start_char(image_ref, '/')
}

/// The URL to fetch an item's image from, when it parses as http(s).
pub fn image_request_url(base_url: &str, image_ref: &str) -> (r: Option<String>)
    ensures
        r is Some <==> is_web_scheme(parsed_url_scheme(image_url_spec(base_url@, image_ref@))),
        r matches Some(u) ==> u@ == image_url_spec(base_url@, image_ref@),
{
    let mut url = base_url.to_owned();
    url.append(trim_start_matches_char(image_ref, '/'));
    match url_scheme(url.as_str()) {
        Some(scheme) => {
            if is_web_scheme_exec(&scheme) {
                Some(url)
            } else {
                None
            }
        },
        None => None,
    }
}

/// Whether an image response may be read: it succeeded and does not
/// announce more than [`MAX_IMAGE_BYTES`].
pub fn image_response_acceptable(success: bool, content_length: Option<u64>) -> (r: bool)
    ensures
        r == (success && match content_length {
            Some(len) => len <= MAX_IMAGE_BYTES,
            None => true,
        }),
{
    if !success {
        return false;
    }
    match content_length {
        Some(len) => len <= MAX_IMAGE_BYTES as u64,
        None => true,
    }
}

/// Characters allowed in an inlined image's media type.
pub open spec fn media_type_char_ok(c: char) -> bool {
    ('a' <= c <= 'z') || ('A' <= c <= 'Z') || ('0' <= c <= '9') || c == '/' || c == '+' || c
        == '-' || c == '.'
}

/// The media type put in the data URI: the response's own when it is an
/// `image/` type made only of safe characters, else `image/jpeg`.
pub open spec fn image_media_type_spec(header: Option<Seq<char>>) -> Seq<char> {
    match header {
        Some(ct) => if seq_starts_with(ct, "image/"@) && (forall|i: int|
            0 <= i < ct.len() ==> media_type_char_ok(#[trigger] ct[i])) {
            ct
        } else {
            "image/jpeg"@
        },
        None => "image/jpeg"@,
    }
}

fn is_media_type_char(c: char) -> (r: bool)
    ensures
        r == media_type_char_ok(c),
{
    ('a' <= c && c <= 'z') || ('A' <= c && c <= 'Z') || ('0' <= c && c <= '9') || c == '/' || c
        == '+' || c == '-' || c == '.'
}

/// The media type for the data URI of an image response.
pub fn image_media_type(header: Option<&str>) -> (r: String)
    ensures
        r@ == image_media_type_spec(
            match header {
                Some(h) => Some(h@),
                None => None,
            },
        ),
{
    if let Some(ct) = header {
        if starts_with(ct, "image/") {
            let n = ct.unicode_len();
            let mut i: usize = 0;
            while i < n
                invariant
                    n == ct@.len(),
                    i <= n,
                    header == Some(ct),
                    seq_starts_with(ct@, "image/"@),
                    forall|j: int| 0 <= j < i ==> media_type_char_ok(#[trigger] ct@[j]),
                decreases n - i,
            {
                if !is_media_type_char(ct.get_char(i)) {
                    assert(!media_type_char_ok(ct@[i as int]));
                    return "image/jpeg".to_owned();
                }
                i = i + 1;
            }
            return ct.to_owned();
        }
    }
    "image/jpeg".to_owned()
}

/// The characters of the standard base64 alphabet, with the `=` padding.
pub open spec fn is_base64_char(c: char) -> bool {
    ('A' <= c <= 'Z') || ('a' <= c <= 'z') || ('0' <= c <= '9') || c == '+' || c == '/' || c
        == '='
}

/// The standard (padded) base64 text that the `base64` crate writes for `bytes`.
pub uninterp spec fn base64_standard(bytes: Seq<u8>) -> Seq<char>;

/// Wraps `Engine::encode` of `base64::engine::general_purpose::STANDARD`.
/// Claimed: the text is a function of the bytes, four characters per
/// started group of three bytes (the crate's `encoded_len` with padding),
/// each from the STANDARD alphabet (`A`-`Z`, `a`-`z`, `0`-`9`, `+`, `/`)
/// or the `=` padding. Which character encodes which bits is not stated. The crate panics when that length does
/// not fit in `usize`; `requires` leaves such inputs out.
#[verifier::external_body]
fn base64_encode(bytes: &[u8]) -> (r: String)
    requires
        bytes@.len() / 3 * 4 + 4 <= usize::MAX,
    ensures
        r@ == base64_standard(bytes@),
        r@.len() == 4 * ((bytes@.len() + 2) / 3),
        forall|i: int| 0 <= i < r@.len() ==> is_base64_char(#[trigger] r@[i]),
{
    base64::engine::general_purpose::STANDARD.encode(bytes)
}

/// A character that may stand inside a double-quoted HTML attribute value
/// without ending it or opening markup: no quote, `<`, `>` or whitespace.
pub open spec fn attribute_safe_char(c: char) -> bool {
    c != '"' && c != '<' && c != '>' && !is_unicode_whitespace(c)
}

proof fn lemma_data_uri_parts_safe(media: Seq<char>, encoded: Seq<char>)
    requires
        seq_starts_with(media, "image/"@),
        forall|i: int| 0 <= i < media.len() ==> media_type_char_ok(#[trigger] media[i]),
        forall|i: int| 0 <= i < encoded.len() ==> is_base64_char(#[trigger] encoded[i]),
    ensures
        seq_starts_with("data:"@ + media + ";base64,"@ + encoded, "data:image/"@),
        forall|i: int|
            0 <= i < ("data:"@ + media + ";base64,"@ + encoded).len() ==> attribute_safe_char(
                #[trigger] ("data:"@ + media + ";base64,"@ + encoded)[i],
            ),
{
    reveal_strlit("data:");
    reveal_strlit(";base64,");
    reveal_strlit("image/");
    reveal_strlit("data:image/");
    let u = "data:"@ + media + ";base64,"@ + encoded;
    let p = "data:image/"@;
    assert(u.subrange(0, p.len() as int) =~= p) by {
        assert forall|i: int| 0 <= i < p.len() implies u[i] == p[i] by {
            if i >= 5 {
                assert(u[i] == media[i - 5]);
                assert(media.subrange(0, 6)[i - 5] == "image/"@[i - 5]);
            }
        }
    }
    assert forall|i: int| 0 <= i < u.len() implies attribute_safe_char(#[trigger] u[i]) by {
        if i < 5 {
        } else if i < 5 + media.len() {
            assert(u[i] == media[i - 5]);
            assert(media_type_char_ok(media[i - 5]));
        } else if i < 5 + media.len() + 8 {
            assert(u[i] == ";base64,"@[i - 5 - media.len()]);
        } else {
            assert(u[i] == encoded[i - 13 - media.len()]);
            assert(is_base64_char(encoded[i - 13 - media.len()]));
        }
    }
}

proof fn lemma_media_type_shape(header: Option<Seq<char>>)
    ensures
        seq_starts_with(image_media_type_spec(header), "image/"@),
        forall|i: int|
            0 <= i < image_media_type_spec(header).len() ==> media_type_char_ok(
                #[trigger] image_media_type_spec(header)[i],
            ),
{
    reveal_strlit("image/jpeg");
    reveal_strlit("image/");
    let j = "image/jpeg"@;
    assert(j.subrange(0, 6) =~= "image/"@);
    assert forall|i: int| 0 <= i < j.len() implies media_type_char_ok(#[trigger] j[i]) by {}
}

/// The data URI that inlines an image, or `None` when the body is larger
/// than [`MAX_IMAGE_BYTES`]. A URI that is given starts with `data:image/`
/// and holds no quote, `<`, `>` or whitespace, so it stays inside the
/// `src="..."` attribute it is written into.
pub fn image_data_uri(content_type: Option<&str>, bytes: &[u8]) -> (r: Option<String>)
    ensures
        bytes@.len() > MAX_IMAGE_BYTES ==> r is None,
        bytes@.len() <= MAX_IMAGE_BYTES ==> (r matches Some(u) && u@ == "data:"@
            + image_media_type_spec(
            match content_type {
                Some(h) => Some(h@),
                None => None,
            },
        ) + ";base64,"@ + base64_standard(bytes@)),
        r matches Some(u) ==> seq_starts_with(u@, "data:image/"@) && (forall|i: int|
            0 <= i < u@.len() ==> attribute_safe_char(#[trigger] u@[i])),
{
    if bytes.len() > MAX_IMAGE_BYTES {
        return None;
    }
    let media_type = image_media_type(content_type);
    let encoded = base64_encode(bytes);
    proof {
        let header = match content_type {
            Some(h) => Some(h@),
            None => None,
        };
        lemma_media_type_shape(header);
        lemma_data_uri_parts_safe(media_type@, encoded@);
    }
    let mut uri = "data:".to_owned();
    uri.append(media_type.as_str());
    uri.append(";base64,");
    uri.append(encoded.as_str());
    Some(uri)
}

} // verus!
