//! The external SQL data source: its private configuration, the mapping of
//! result rows to items, account verification and the client used when the
//! feature is not configured.

use vstd::prelude::*;
use vstd::utf8::{decode_utf8, is_ascii_chars, valid_utf8};

use crate::text::{
    after_last, after_last_char, ascii_lower, lemma_after_last_at_ascii_lower,
    lemma_after_last_at_of_address, lemma_ascii_lower_idempotent, lemma_trim_ascii_lower,
    opt_string_view, to_ascii_lowercase, trim, trim_end_char,
    trim_end_matches_char, trim_ws,
};

verus! {

/// Where and how to reach the external MySQL server.
#[derive(Debug, Clone)]
pub struct ExternalConnection {
    pub host: String,
    pub port: u16,
    pub user: String,
    pub password: String,
    pub database: String,
    /// Use TLS for the connection (default true).
    pub tls: bool,
}

/// SQL templates with a fixed positional parameter/column contract:
///
/// - `verify_account`: param `(email)` → row `(account_id, password_hash, system)`
/// - `count`:          param `(system)` → row `(count)`
/// - `list`:           params `(system, limit, offset)` → rows
///                     `(id, subject, sender, date, snippet)`
/// - `detail`:         params `(id, system)` → row
///                     `(id, subject, sender, date, body_html, body_text)`
#[derive(Debug, Clone)]
pub struct ExternalQueries {
    pub verify_account: String,
    pub count: String,
    pub list: String,
    pub detail: String,
}

/// Private, per-instance configuration of the optional external SQL folder.
#[derive(Debug, Clone)]
pub struct ExternalFolderConfig {
    /// Display name of the virtual folder.
    pub folder_name: String,
    /// Optional icon key hint for the client.
    pub icon: Option<String>,
    pub connection: ExternalConnection,
    /// E-mail domain (lowercase) and the opaque system id it maps to; each
    /// domain occurs once.
    pub domains: Vec<(String, i64)>,
    pub queries: ExternalQueries,
}

/// A single row rendered as a message-like item.
#[derive(Debug, Clone, PartialEq)]
pub struct ExternalItem {
    pub id: u32,
    pub subject: String,
    pub sender: String,
    pub date: String,
    pub snippet: String,
    pub body_html: Option<String>,
    pub body_text: Option<String>,
    /// Reference of the item's image, relative to the configured base URL.
    pub image_ref: Option<String>,
}

/// A verified external account.
#[derive(Debug, Clone, PartialEq, Eq)]
pub struct VerifiedAccount {
    pub id: u64,
    pub system: i64,
    pub email: String,
}

/// Why an external operation failed.
#[derive(Debug, Clone)]
pub enum ExternalError {
    NotConfigured,
    Unreachable(String),
    Query(String),
    InvalidCredentials,
    SystemMismatch,
}

/// The message shown to the user for each kind of failure.
pub open spec fn user_message_spec(e: ExternalError) -> Seq<char> {
    match e {
        ExternalError::NotConfigured => "Este recurso não está configurado no servidor."@,
        ExternalError::Unreachable(_) => "Não foi possível conectar ao serviço externo. Tente novamente."@,
        ExternalError::Query(_) => "Erro ao consultar os dados. Tente novamente."@,
        ExternalError::InvalidCredentials => "Usuário ou senha inválidos."@,
        ExternalError::SystemMismatch => "Esta conta pertence a outro sistema, diferente do sistema do seu e-mail."@,
    }
}

/// Law of the user messages: the technical detail carried by `Unreachable`
/// and `Query` never reaches the message shown to the user.
pub proof fn lemma_user_message_hides_detail(a: String, b: String)
    ensures
        user_message_spec(ExternalError::Unreachable(a)) == user_message_spec(
            ExternalError::Unreachable(b),
        ),
        user_message_spec(ExternalError::Query(a)) == user_message_spec(ExternalError::Query(b)),
{
}

impl ExternalError {
    /// A message fit for the user; the technical detail carried by
    /// `Unreachable` and `Query` is not part of it.
    pub fn user_message(&self) -> (r: String)
        ensures
            r@ == user_message_spec(*self),
    {
        match self {
            ExternalError::NotConfigured => "Este recurso não está configurado no servidor.".to_owned(),
            ExternalError::Unreachable(_) => "Não foi possível conectar ao serviço externo. Tente novamente.".to_owned(),
            ExternalError::Query(_) => "Erro ao consultar os dados. Tente novamente.".to_owned(),
            ExternalError::InvalidCredentials => "Usuário ou senha inválidos.".to_owned(),
            ExternalError::SystemMismatch => "Esta conta pertence a outro sistema, diferente do sistema do seu e-mail.".to_owned(),
        }
    }
}

/// Folder name used when the configuration gives none.
pub fn default_folder_name() -> (r: String)
    ensures
        r@ == "External"@,
{
    "External".to_owned()
}

/// MySQL port used when the configuration gives none.
pub fn default_mysql_port() -> (r: u16)
    ensures
        r == 3306,
{
    3306
}

/// TLS setting used when the configuration gives none.
pub fn default_true() -> (r: bool)
    ensures
        r,
{
    true
}

/// The configuration file's path: the configured path when it holds more
/// than whitespace, else `external-folder.json` in the data directory.
pub open spec fn config_path_spec(configured: Option<Seq<char>>, data_dir: Seq<char>) -> Seq<
    char,
> {
    match configured {
        Some(p) if trim_ws(p).len() > 0 => p,
        _ => trim_end_char(data_dir, '/') + "/external-folder.json"@,
    }
}

/// Resolve the config file path from the configured override and the data directory.
pub fn config_path(external_folder_config: &Option<String>, data_dir: &str) -> (r: String)
    ensures
        r@ == config_path_spec(
            match external_folder_config {
                Some(p) => Some(p@),
                None => None,
            },
            data_dir@,
        ),
{
    if let Some(p) = external_folder_config {
        if trim(p.as_str()).unicode_len() > 0 {
            return p.clone();
        }
    }
    let mut path = trim_end_matches_char(data_dir, '/').to_owned();
    path.append("/external-folder.json");
    path
}

/// What `String::from_utf8_lossy` makes of a byte string.
pub uninterp spec fn utf8_lossy(bytes: Seq<u8>) -> Seq<char>;

/// Wraps `String::from_utf8_lossy` (then takes ownership of the result).
/// Claimed: the result is a function of the bytes alone, and valid UTF-8
/// input is decoded unchanged, as std's documentation states. How invalid
/// sequences are replaced is not stated.
#[verifier::external_body]
fn text(bytes: Vec<u8>) -> (r: String)
    ensures
        r@ == utf8_lossy(bytes@),
        valid_utf8(bytes@) ==> r@ == decode_utf8(bytes@),
{
    String::from_utf8_lossy(&bytes).into_owned()
}

/// Whether `bcrypt::verify` accepts the password (`Some(true)`), rejects it
/// (`Some(false)`) or fails on the hash (`None`).
pub uninterp spec fn bcrypt_verify_outcome(password: Seq<char>, hash: Seq<char>) -> Option<bool>;

/// Wraps `bcrypt::verify`, with its error turned into `None`. Claimed: the
/// outcome is a function of the password and the hash, and a hash that is
/// not 60 ASCII characters is refused (the crate checks this first, in
/// `split_hash`). The hashing itself is not stated.
#[verifier::external_body]
fn bcrypt_verify(password: &str, hash: &str) -> (r: Option<bool>)
    ensures
        r == bcrypt_verify_outcome(password@, hash@),
        !(hash@.len() == 60 && is_ascii_chars(hash@)) ==> r is None,
{
    bcrypt::verify(password, hash).ok()
}

/// The view of an optional byte column decoded as text.
pub open spec fn opt_text(o: Option<Vec<u8>>) -> Option<Seq<char>> {
    match o {
        Some(b) => Some(utf8_lossy(b@)),
        None => None,
    }
}

/// Outcome of checking a `verify_account` row against the password: the
/// account when the row exists, has a hash that bcrypt accepts for the
/// password and has a system; `InvalidCredentials` otherwise.
pub open spec fn account_outcome(
    row: Option<(u64, Option<Vec<u8>>, Option<i64>)>,
    password: Seq<char>,
) -> Option<(u64, i64)> {
    match row {
        Some((id, Some(hash), Some(system))) => if bcrypt_verify_outcome(
            password,
            utf8_lossy(hash@),
        ) == Some(true) {
            Some((id, system))
        } else {
            None
        },
        _ => None,
    }
}

/// Law of account verification: an e-mail the external source does not know
/// and a password that bcrypt rejects get the same answer, so a refusal does
/// not tell which of the two failed. The password itself is only compared
/// here, against the stored hash.
pub proof fn lemma_account_refusals_are_alike(
    password: Seq<char>,
    id: u64,
    hash: Vec<u8>,
    system: Option<i64>,
)
    ensures
        account_outcome(None, password) is None,
        bcrypt_verify_outcome(password, utf8_lossy(hash@)) != Some(true) ==> account_outcome(
            Some((id, Some(hash), system)),
            password,
        ) is None,
{
}

/// Law of account acceptance: whatever the hash's prefix or variant, a row
/// with an id, a hash that bcrypt accepts for the password, and a system
/// is accepted with that id and system; a row without a system, without a
/// hash, or with a hash bcrypt does not accept is refused.
pub proof fn lemma_account_accepted_when_bcrypt_accepts(
    password: Seq<char>,
    id: u64,
    hash: Option<Vec<u8>>,
    system: Option<i64>,
)
    ensures
        (hash matches Some(h) && bcrypt_verify_outcome(password, utf8_lossy(h@)) == Some(true))
            && system is Some ==> account_outcome(Some((id, hash, system)), password) == Some(
            (id, system->0),
        ),
        account_outcome(Some((id, hash, system)), password) is Some ==> system is Some
            && hash is Some && bcrypt_verify_outcome(password, utf8_lossy(hash->0@)) == Some(
            true,
        ) && account_outcome(Some((id, hash, system)), password) == Some((id, system->0)),
{
}

/// Check the row that the `verify_account` query returned for `email`.
pub fn account_from_row(
    row: Option<(u64, Option<Vec<u8>>, Option<i64>)>,
    email: String,
    password: &str,
) -> (r: Result<VerifiedAccount, ExternalError>)
    ensures
        match account_outcome(row, password@) {
            Some((id, system)) => r matches Ok(a) && a.id == id && a.system == system && a.email@
                == email@,
            None => r matches Err(ExternalError::InvalidCredentials),
        },
{
    let Some((id, hash, system)) = row else {
        return Err(ExternalError::InvalidCredentials);
    };
    let Some(hash) = hash else {
        return Err(ExternalError::InvalidCredentials);
    };
    let hash = text(hash);
    let ok = match bcrypt_verify(password, hash.as_str()) {
        Some(b) => b,
        None => false,
    };
    if !ok {
        return Err(ExternalError::InvalidCredentials);
    }
    let Some(system) = system else {
        return Err(ExternalError::InvalidCredentials);
    };
    Ok(VerifiedAccount { id, system, email })
}

/// The number of items; a query that returns no row counts as zero.
pub fn count_from_row(row: Option<u64>) -> (r: u64)
    ensures
        r == match row {
            Some(c) => c,
            None => 0,
        },
{
    match row {
        Some(c) => c,
        None => 0,
    }
}

/// The row offset of a page: `page * per_page`, saturating at `u32::MAX`.
pub fn list_offset(page: u32, per_page: u32) -> (r: u32)
    ensures
        r == if page * per_page > u32::MAX {
            u32::MAX as int
        } else {
            page * per_page
        },
{
    match page.checked_mul(per_page) {
        Some(v) => v,
        None => u32::MAX,
    }
}

/// An item built from a `list` row `(id, subject, sender, date, snippet)`.
pub open spec fn list_row_item(
    row: (u32, Vec<u8>, Vec<u8>, Vec<u8>, Vec<u8>),
    item: ExternalItem,
) -> bool {
    &&& item.id == row.0
    &&& item.subject@ == utf8_lossy(row.1@)
    &&& item.sender@ == utf8_lossy(row.2@)
    &&& item.date@ == utf8_lossy(row.3@)
    &&& item.snippet@ == utf8_lossy(row.4@)
    &&& item.body_html is None
    &&& item.body_text is None
    &&& item.image_ref is None
}

/// Turn the rows of the `list` query into items, in order.
pub fn items_from_list_rows(rows: Vec<(u32, Vec<u8>, Vec<u8>, Vec<u8>, Vec<u8>)>) -> (r: Vec<
    ExternalItem,
>)
    ensures
        r@.len() == rows@.len(),
        forall|i: int| 0 <= i < rows@.len() ==> list_row_item(#[trigger] rows@[i], r@[i]),
{
    let mut rows = rows;
    let ghost original = rows@;
    let n = rows.len();
    let mut out: Vec<ExternalItem> = Vec::new();
    while rows.len() > 0
        invariant
            original.len() == n,
            out@.len() <= n,
            rows@ == original.subrange(out@.len() as int, n as int),
            forall|i: int| 0 <= i < out@.len() ==> list_row_item(original[i], #[trigger] out@[i]),
        decreases rows.len(),
    {
        let (id, subject, sender, date, snippet) = rows.remove(0);
        let ghost k = out@.len();
        out.push(ExternalItem {
            id,
            subject: text(subject),
            sender: text(sender),
            date: text(date),
            snippet: text(snippet),
            body_html: None,
            body_text: None,
            image_ref: None,
        });
        assert(list_row_item(original[k as int], out@[k as int]));
        assert(rows@ =~= original.subrange(out@.len() as int, n as int));
    }
    out
}

/// Turn the row of the `detail` query into an item; no row means no item.
pub fn item_from_detail_row(
    row: Option<(u32, Vec<u8>, Vec<u8>, Vec<u8>, Option<Vec<u8>>, Option<Vec<u8>>)>,
) -> (r: Option<ExternalItem>)
    ensures
        row is None <==> r is None,
        row matches Some((id, subject, sender, date, body_html, body_text)) ==> r matches Some(
            item,
        ) && {
            &&& item.id == id
            &&& item.subject@ == utf8_lossy(subject@)
            &&& item.sender@ == utf8_lossy(sender@)
            &&& item.date@ == utf8_lossy(date@)
            &&& item.snippet@ == Seq::<char>::empty()
            &&& opt_string_view(item.body_html) == opt_text(body_html)
            &&& opt_string_view(item.body_text) == opt_text(body_text)
            &&& item.image_ref is None
        },
{
    match row {
        None => None,
        Some((id, subject, sender, date, body_html, body_text)) => {
            let body_html = match body_html {
                Some(b) => Some(text(b)),
                None => None,
            };
            let body_text = match body_text {
                Some(b) => Some(text(b)),
                None => None,
            };
            Some(
                ExternalItem {
                    id,
                    subject: text(subject),
                    sender: text(sender),
                    date: text(date),
                    snippet: String::new(),
                    body_html,
                    body_text,
                    image_ref: None,
                },
            )
        },
    }
}

/// The view of the domain table: `(domain, system)` pairs in order.
pub open spec fn domains_view(domains: Seq<(String, i64)>) -> Seq<(Seq<char>, i64)> {
    domains.map_values(|p: (String, i64)| (p.0@, p.1))
}

/// The system of the first entry for `domain`.
pub open spec fn lookup_domain(domains: Seq<(Seq<char>, i64)>, domain: Seq<char>) -> Option<i64>
    decreases domains.len(),
{
    if domains.len() == 0 {
        None
    } else if domains[0].0 == domain {
        Some(domains[0].1)
    } else {
        lookup_domain(domains.drop_first(), domain)
    }
}

/// No domain occurs twice in the table, as in the map it was read from.
pub open spec fn domains_distinct(domains: Seq<(Seq<char>, i64)>) -> bool {
    forall|i: int, j: int|
        0 <= i < domains.len() && 0 <= j < domains.len() && i != j ==> #[trigger] domains[i].0
            != #[trigger] domains[j].0
}

/// The table as a map from domain to system.
pub open spec fn domains_map(domains: Seq<(Seq<char>, i64)>) -> Map<Seq<char>, i64>
    decreases domains.len(),
{
    if domains.len() == 0 {
        Map::empty()
    } else {
        domains_map(domains.drop_first()).insert(domains[0].0, domains[0].1)
    }
}

/// Law of the domain table: a lookup gives what the map of the table holds
/// for the domain; and when no domain occurs twice, that map holds exactly
/// the table's entries, so the table is the configured map itself.
pub proof fn lemma_lookup_domain_is_map_lookup(domains: Seq<(Seq<char>, i64)>, domain: Seq<char>)
    ensures
        lookup_domain(domains, domain) == (if domains_map(domains).contains_key(domain) {
            Some(domains_map(domains)[domain])
        } else {
            None
        }),
        domains_distinct(domains) ==> forall|i: int|
            0 <= i < domains.len() ==> domains_map(domains).contains_key(#[trigger] domains[i].0)
                && domains_map(domains)[domains[i].0] == domains[i].1,
        forall|k: Seq<char>|
            #[trigger] domains_map(domains).contains_key(k) ==> exists|i: int|
                0 <= i < domains.len() && domains[i].0 == k,
    decreases domains.len(),
{
    if domains.len() > 0 {
        let rest = domains.drop_first();
        lemma_lookup_domain_is_map_lookup(rest, domain);
        if domains_distinct(domains) {
            assert(domains_distinct(rest)) by {
                assert forall|i: int, j: int|
                    0 <= i < rest.len() && 0 <= j < rest.len() && i != j implies #[trigger] rest[i].0
                    != #[trigger] rest[j].0 by {
                    assert(rest[i] == domains[i + 1] && rest[j] == domains[j + 1]);
                }
            }
            assert forall|i: int| 0 <= i < domains.len() implies domains_map(
                domains,
            ).contains_key(#[trigger] domains[i].0) && domains_map(domains)[domains[i].0]
                == domains[i].1 by {
                if i > 0 {
                    assert(domains[i] == rest[i - 1]);
                    assert(domains[i].0 != domains[0].0);
                }
            }
        }
        assert forall|k: Seq<char>| #[trigger] domains_map(domains).contains_key(k) implies exists|
            i: int,
        | 0 <= i < domains.len() && domains[i].0 == k by {
            if k != domains[0].0 {
                assert(domains_map(rest).contains_key(k));
                let i = choose|i: int| 0 <= i < rest.len() && rest[i].0 == k;
                assert(domains[i + 1].0 == k);
            }
        }
    }
}

/// The domain of an e-mail address as the configuration keys it: the text
/// after the last `@`, trimmed and in ASCII lower case.
pub open spec fn email_domain_key(email: Seq<char>) -> Seq<char> {
    ascii_lower(trim_ws(after_last_char(email, '@')))
}

/// Laws of the domain key: for an address `local@domain` whose domain holds
/// no `@`, the key is the trimmed, lower-cased domain; and the key does not
/// depend on the case of ASCII letters in the address, so addresses that
/// differ only in case map to the same system.
pub proof fn lemma_email_domain_key_laws(email: Seq<char>, local: Seq<char>, domain: Seq<char>)
    ensures
        !domain.contains('@') ==> email_domain_key(local + seq!['@'] + domain) == ascii_lower(
            trim_ws(domain),
        ),
        email_domain_key(ascii_lower(email)) == email_domain_key(email),
{
    if !domain.contains('@') {
        lemma_after_last_at_of_address(local, domain);
    }
    lemma_after_last_at_ascii_lower(email);
    let part = after_last_char(email, '@');
    lemma_trim_ascii_lower(part);
    lemma_ascii_lower_idempotent(trim_ws(part));
}

impl ExternalFolderConfig {
    /// The configuration is well formed: no domain occurs twice.
    pub open spec fn well_formed(&self) -> bool {
        domains_distinct(domains_view(self.domains@))
    }

    /// Configured folder display name.
    pub fn folder_name(&self) -> (r: &str)
        ensures
            r@ == self.folder_name@,
    {
        self.folder_name.as_str()
    }

    /// Configured icon key, if any.
    pub fn icon(&self) -> (r: Option<&str>)
        ensures
            r is Some <==> self.icon is Some,
            r matches Some(i) ==> i@ == self.icon->0@,
    {
        match &self.icon {
            Some(i) => Some(i.as_str()),
            None => None,
        }
    }

    /// Map an account e-mail to the configured system id through its domain.
    pub fn system_for_email(&self, email: &str) -> (r: Option<i64>)
        ensures
            r == lookup_domain(domains_view(self.domains@), email_domain_key(email@)),
    {
        let domain = to_ascii_lowercase(trim(after_last(email, '@')));
        let ghost key = domain@;
        let ghost all = domains_view(self.domains@);
        let n = self.domains.len();
        let mut i: usize = 0;
        assert(key == email_domain_key(email@));
        assert(all.len() == n);
        assert(all.subrange(0, n as int) =~= all);
        while i < n
            invariant
                n == self.domains@.len(),
                all == domains_view(self.domains@),
                key == domain@,
                key == email_domain_key(email@),
                i <= n,
                lookup_domain(all, key) == lookup_domain(all.subrange(i as int, n as int), key),
            decreases n - i,
        {
            let entry = &self.domains[i];
            proof {
                let rest = all.subrange(i as int, n as int);
                assert(rest[0] == (entry.0@, entry.1));
                assert(rest.drop_first() =~= all.subrange(i + 1, n as int));
            }
            if entry.0.eq(&domain) {
                assert(all.subrange(i as int, n as int)[0] == (key, entry.1));
                return Some(entry.1);
            }
            i = i + 1;
        }
        None
    }
}

/// Client used when no valid private config is present: every query
/// answers `NotConfigured`.
#[derive(Debug, Clone, Copy)]
pub struct UnconfiguredExternalClient;

impl UnconfiguredExternalClient {
    pub fn is_configured(&self) -> (r: bool)
        ensures
            !r,
    {
        false
    }

    pub fn folder_name(&self) -> (r: &'static str)
        ensures
            r@ == ""@,
    {
        ""
    }

    pub fn icon(&self) -> (r: Option<&'static str>)
        ensures
            r is None,
    {
        None
    }

    pub fn system_for_email(&self, _email: &str) -> (r: Option<i64>)
        ensures
            r is None,
    {
        None
    }

    pub fn verify_account(&self, _email: &str, _password: &str) -> (r: Result<
        VerifiedAccount,
        ExternalError,
    >)
        ensures
            r matches Err(ExternalError::NotConfigured),
    {
        Err(ExternalError::NotConfigured)
    }

    pub fn count(&self, _system: i64) -> (r: Result<u64, ExternalError>)
        ensures
            r matches Err(ExternalError::NotConfigured),
    {
        Err(ExternalError::NotConfigured)
    }

    pub fn list(&self, _system: i64, _page: u32, _per_page: u32) -> (r: Result<
        Vec<ExternalItem>,
        ExternalError,
    >)
        ensures
            r matches Err(ExternalError::NotConfigured),
    {
        Err(ExternalError::NotConfigured)
    }

    pub fn detail(&self, _system: i64, _id: u32) -> (r: Result<
        Option<ExternalItem>,
        ExternalError,
    >)
        ensures
            r matches Err(ExternalError::NotConfigured),
    {
        Err(ExternalError::NotConfigured)
    }
}

/// The external client the server runs with.
#[derive(Debug)]
pub enum ExternalClient<R> {
    /// Backed by the external database.
    Real(R),
    /// The feature is disabled.
    Unconfigured(UnconfiguredExternalClient),
}

/// Choose the client: the real one when a configuration was loaded and its
/// connection pool was created (`Some(Ok(_))`), the disabled one when no
/// configuration is present (`None`) or the pool could not be created.
pub fn build_external_client<R>(prepared: Option<Result<R, String>>) -> (r: ExternalClient<R>)
    ensures
        match prepared {
            Some(Ok(c)) => r == ExternalClient::Real(c),
            _ => r is Unconfigured,
        },
{
    match prepared {
        Some(Ok(client)) => ExternalClient::Real(client),
        _ => ExternalClient::Unconfigured(UnconfiguredExternalClient),
    }
}

} // verus!
