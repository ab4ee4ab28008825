//! The user's configurable navigation-rail shortcut: defaults, partial
//! updates and their validation.

use vstd::prelude::*;
use vstd::utf8::encode_utf8;

use crate::error::{AppError, AppErrorKind};
use crate::text::{opt_string_view, seq_starts_with, starts_with};

verus! {

/// The user's configurable navigation-rail shortcut.
#[derive(Debug, Clone, PartialEq, Eq)]
pub struct CustomNavLink {
    /// Target URL. An empty string means no shortcut button is shown.
    pub url: String,
    /// Icon key; resolved to a component on the client.
    pub icon: String,
}

/// Partial update for [`CustomNavLink`]. Omitted fields keep their current value.
#[derive(Debug, Clone)]
pub struct UpdateCustomNavLink {
    pub url: Option<String>,
    pub icon: Option<String>,
}

/// The shortcut shown until the user sets one.
pub open spec fn default_url_spec() -> Seq<char> {
    "https://producao.ghpo.com.br"@
}

/// The icon shown until the user sets one.
pub open spec fn default_icon_spec() -> Seq<char> {
    "printer"@
}

/// Longest URL, in UTF-8 bytes, that may be stored.
pub const MAX_URL_BYTES: usize = 2048;

/// Longest icon key, in UTF-8 bytes, that may be stored.
pub const MAX_ICON_BYTES: usize = 64;

/// Length of `s` in UTF-8 bytes, which is what `str::len` counts.
pub open spec fn utf8_len(s: Seq<char>) -> nat {
    encode_utf8(s).len()
}

/// The URL schemes a shortcut may use; an empty URL hides the button.
pub open spec fn url_scheme_allowed(url: Seq<char>) -> bool {
    url.len() == 0 || seq_starts_with(url, "http://"@) || seq_starts_with(url, "https://"@)
}

/// What an update produces from the stored `(url, icon)`: the merged pair, or
/// the message of the first check that fails.
pub open spec fn nav_link_update_outcome(
    current_url: Seq<char>,
    current_icon: Seq<char>,
    new_url: Option<Seq<char>>,
    new_icon: Option<Seq<char>>,
) -> Result<(Seq<char>, Seq<char>), Seq<char>> {
    let url = match new_url {
        Some(u) => u,
        None => current_url,
    };
    let icon = match new_icon {
        Some(i) => i,
        None => current_icon,
    };
    if utf8_len(url) > MAX_URL_BYTES {
        Err("Invalid custom link url: too long"@)
    } else if utf8_len(icon) > MAX_ICON_BYTES {
        Err("Invalid custom link icon: too long"@)
    } else if !url_scheme_allowed(url) {
        Err("Invalid custom link url: must start with http:// or https://"@)
    } else {
        Ok((url, icon))
    }
}

/// The view of an update result.
pub open spec fn link_result_view(r: Result<CustomNavLink, String>) -> Result<
    (Seq<char>, Seq<char>),
    Seq<char>,
> {
    match r {
        Ok(l) => Ok((l.url@, l.icon@)),
        Err(e) => Err(e@),
    }
}

/// The built-in shortcut, used when nothing is stored.
pub fn default_custom_nav_link() -> (r: CustomNavLink)
    ensures
        r.url@ == default_url_spec(),
        r.icon@ == default_icon_spec(),
{
    CustomNavLink { url: "https://producao.ghpo.com.br".to_owned(), icon: "printer".to_owned() }
}

/// The `(url, icon)` that a stored row reads as; a NULL column falls back
/// to the built-in value.
pub open spec fn stored_link_view(url: Option<Seq<char>>, icon: Option<Seq<char>>) -> (
    Seq<char>,
    Seq<char>,
) {
    (
        match url {
            Some(u) => u,
            None => default_url_spec(),
        },
        match icon {
            Some(i) => i,
            None => default_icon_spec(),
        },
    )
}

/// The shortcut stored in a row whose columns may be NULL; a NULL column
/// falls back to the built-in value.
pub fn link_from_row(url: Option<String>, icon: Option<String>) -> (r: CustomNavLink)
    ensures
        (r.url@, r.icon@) == stored_link_view(opt_string_view(url), opt_string_view(icon)),
{
    let fallback = default_custom_nav_link();
    CustomNavLink {
        url: match url {
            Some(u) => u,
            None => fallback.url,
        },
        icon: match icon {
            Some(i) => i,
            None => fallback.icon,
        },
    }
}

/// Merge a partial update into the stored shortcut and validate the result.
/// Fields left out of `data` keep their current value. The merged URL may
/// hold at most 2048 bytes and must be empty or start with `http://` or
/// `https://`; the icon key may hold at most 64 bytes.
pub fn resolve_custom_nav_link_update(current: CustomNavLink, data: &UpdateCustomNavLink) -> (r:
    Result<CustomNavLink, String>)
    ensures
        link_result_view(r) == nav_link_update_outcome(
            current.url@,
            current.icon@,
            opt_string_view(data.url),
            opt_string_view(data.icon),
        ),
{
    let url = match &data.url {
        Some(u) => u.clone(),
        None => current.url,
    };
    let icon = match &data.icon {
        Some(i) => i.clone(),
        None => current.icon,
    };
    if url.as_str().as_bytes().len() > MAX_URL_BYTES {
        return Err("Invalid custom link url: too long".to_owned());
    }
    if icon.as_str().as_bytes().len() > MAX_ICON_BYTES {
        return Err("Invalid custom link icon: too long".to_owned());
    }
    if !url.as_str().is_empty() && !starts_with(url.as_str(), "http://") && !starts_with(
        url.as_str(),
        "https://",
    ) {
        return Err("Invalid custom link url: must start with http:// or https://".to_owned());
    }
    Ok(CustomNavLink { url, icon })
}

/// The prefix that marks a message as a rejected shortcut.
pub open spec fn invalid_link_prefix() -> Seq<char> {
    "Invalid custom link"@
}

/// The HTTP class of a failed shortcut update: messages of rejected links
/// are the client's fault (400), any other failure is internal (500).
pub open spec fn update_error_kind(message: Seq<char>) -> AppErrorKind {
    if seq_starts_with(message, invalid_link_prefix()) {
        AppErrorKind::BadRequest
    } else {
        AppErrorKind::InternalError
    }
}

/// Classify a failure of the shortcut update by its message, which is kept.
pub fn map_update_error(message: String) -> (r: AppError)
    ensures
        r@ == (update_error_kind(message@), message@),
{
    if starts_with(message.as_str(), "Invalid custom link") {
        AppError::BadRequest(message)
    } else {
        AppError::InternalError(message)
    }
}

/// Laws of the shortcut update.
///
/// A field left out of an update keeps its current value and a field given
/// replaces it; what is accepted is within the size bounds and uses an
/// allowed scheme; every rejection message starts with "Invalid custom link",
/// so the HTTP layer answers it with 400; and applying the same update again
/// to an accepted result gives that result back.
pub proof fn lemma_nav_link_update_laws(
    current_url: Seq<char>,
    current_icon: Seq<char>,
    new_url: Option<Seq<char>>,
    new_icon: Option<Seq<char>>,
)
    ensures
        nav_link_update_outcome(current_url, current_icon, new_url, new_icon) matches Ok(
            (url, icon),
        ) ==> {
            &&& url == (match new_url {
                Some(u) => u,
                None => current_url,
            })
            &&& icon == (match new_icon {
                Some(i) => i,
                None => current_icon,
            })
            &&& utf8_len(url) <= MAX_URL_BYTES
            &&& utf8_len(icon) <= MAX_ICON_BYTES
            &&& url_scheme_allowed(url)
            &&& nav_link_update_outcome(url, icon, new_url, new_icon) == Ok::<
                (Seq<char>, Seq<char>),
                Seq<char>,
            >((url, icon))
        },
        nav_link_update_outcome(current_url, current_icon, new_url, new_icon) matches Err(m)
            ==> seq_starts_with(m, invalid_link_prefix()) && update_error_kind(m)
            == AppErrorKind::BadRequest,
{
    reveal_strlit("Invalid custom link");
    reveal_strlit("Invalid custom link url: too long");
    reveal_strlit("Invalid custom link icon: too long");
    reveal_strlit("Invalid custom link url: must start with http:// or https://");
    let prefix = invalid_link_prefix();
    let m1 = "Invalid custom link url: too long"@;
    let m2 = "Invalid custom link icon: too long"@;
    let m3 = "Invalid custom link url: must start with http:// or https://"@;
    assert(m1.subrange(0, prefix.len() as int) =~= prefix);
    assert(m2.subrange(0, prefix.len() as int) =~= prefix);
    assert(m3.subrange(0, prefix.len() as int) =~= prefix);
}

/// Law of validation completeness: after merging, a URL of at most 2048
/// UTF-8 bytes that is empty or starts with `http://` or `https://`, with an
/// icon of at most 64 bytes, is accepted as merged; and every refusal names
/// a bound that the merged values break.
pub proof fn lemma_nav_link_update_accepts_valid(
    current_url: Seq<char>,
    current_icon: Seq<char>,
    new_url: Option<Seq<char>>,
    new_icon: Option<Seq<char>>,
)
    ensures
        ({
            let url = match new_url {
                Some(u) => u,
                None => current_url,
            };
            let icon = match new_icon {
                Some(i) => i,
                None => current_icon,
            };
            &&& (utf8_len(url) <= 2048 && utf8_len(icon) <= 64 && (url.len() == 0
                || seq_starts_with(url, "http://"@) || seq_starts_with(url, "https://"@)))
                ==> nav_link_update_outcome(current_url, current_icon, new_url, new_icon) == Ok::<
                (Seq<char>, Seq<char>),
                Seq<char>,
            >((url, icon))
            &&& nav_link_update_outcome(current_url, current_icon, new_url, new_icon) matches Err(
                m,
            ) ==> (m == "Invalid custom link url: too long"@ && utf8_len(url) > 2048) || (m
                == "Invalid custom link icon: too long"@ && utf8_len(icon) > 64) || (m
                == "Invalid custom link url: must start with http:// or https://"@ && url.len()
                != 0 && !seq_starts_with(url, "http://"@) && !seq_starts_with(url, "https://"@))
        }),
{
}

/// A link written to storage as two non-NULL columns reads back as the same link.
pub proof fn lemma_stored_link_reads_back(url: Seq<char>, icon: Seq<char>)
    ensures
        stored_link_view(Some(url), Some(icon)) == (url, icon),
{
}

} // verus!
