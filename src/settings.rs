//! Settings as stored, one text value per key, and their defaults.

use vstd::prelude::*;
use crate::job::{parse_i64_header, parsed_i64};
use crate::model::SettingsSnapshot;
use crate::text::{chars_of, str_eq, trim, trim_range};

verus! {

/// The port of the local control surface when none is stored.
pub const DEFAULT_LOCAL_API_PORT: i64 = 17777;

/// The stored text of each setting, absent where no row exists.
#[derive(Debug, Clone)]
pub struct RawSettings {
    pub default_download_dir: Option<String>,
    pub bandwidth_limit_bps: Option<String>,
    pub minimize_to_tray: Option<String>,
    pub theme: Option<String>,
    pub skin: Option<String>,
    pub global_hotkey: Option<String>,
    pub global_proxy_enabled: Option<String>,
    pub global_proxy_url: Option<String>,
    pub local_api_port: Option<String>,
}

pub open spec fn text_or(o: Option<String>, d: Seq<char>) -> Seq<char> {
    match o {
        Some(s) => s@,
        None => d,
    }
}

pub open spec fn flag_or(o: Option<String>, d: bool) -> bool {
    match o {
        Some(s) => s@ == "1"@,
        None => d,
    }
}

/// A stored limit counts only when it reads as a positive number.
pub open spec fn limit_of(o: Option<String>) -> Option<int> {
    match o {
        Some(s) => match parsed_i64(s@) {
            Some(v) => if v > 0 {
                Some(v)
            } else {
                None
            },
            None => None,
        },
        None => None,
    }
}

pub open spec fn port_of(o: Option<String>) -> int {
    match o {
        Some(s) => match parsed_i64(s@) {
            Some(v) => v,
            None => DEFAULT_LOCAL_API_PORT as int,
        },
        None => DEFAULT_LOCAL_API_PORT as int,
    }
}

fn text_or_default(o: Option<String>, d: &str) -> (r: String)
    ensures
        r@ == text_or(o, d@),
{
    match o {
        Some(s) => s,
        None => d.to_owned(),
    }
}

fn flag_or_default(o: &Option<String>, d: bool) -> (r: bool)
    ensures
        r == flag_or(*o, d),
{
    match o {
        Some(s) => str_eq(s.as_str(), "1"),
        None => d,
    }
}

fn is_blank(s: &String) -> (r: bool)
    ensures
        r == (trim(s@).len() == 0),
{
    let v = chars_of(s.as_str());
    assert(v@.subrange(0, v@.len() as int) =~= v@);
    let (a, b) = trim_range(v.as_slice(), 0, v.len());
    a == b
}

/// Reads the settings from their stored text: a missing directory, theme,
/// skin or hotkey reads as empty text (the theme as `dark`); flags are on
/// when stored as `1` (tray minimizing defaults to on, the proxy to off); the
/// bandwidth limit counts only when positive; a blank proxy URL reads as
/// none; an unreadable port reads as the default.
pub fn settings_from_raw(raw: RawSettings) -> (r: SettingsSnapshot)
    ensures
        r.default_download_dir@ == text_or(raw.default_download_dir, seq![]),
        match r.bandwidth_limit_bps {
            Some(v) => limit_of(raw.bandwidth_limit_bps) == Some(v as int),
            None => limit_of(raw.bandwidth_limit_bps) is None,
        },
        r.minimize_to_tray == flag_or(raw.minimize_to_tray, true),
        r.theme@ == text_or(raw.theme, "dark"@),
        r.skin@ == text_or(raw.skin, seq![]),
        r.global_hotkey@ == text_or(raw.global_hotkey, seq![]),
        r.global_proxy_enabled == flag_or(raw.global_proxy_enabled, false),
        r.global_proxy_url == match raw.global_proxy_url {
            Some(s) => if trim(s@).len() == 0 {
                None
            } else {
                Some(s)
            },
            None => None,
        },
        r.local_api_port == port_of(raw.local_api_port),
{
    let limit = match &raw.bandwidth_limit_bps {
        Some(s) => match parse_i64_header(s.as_str()) {
            Some(v) => if v > 0 {
                Some(v)
            } else {
                None
            },
            None => None,
        },
        None => None,
    };
    let port = match &raw.local_api_port {
        Some(s) => match parse_i64_header(s.as_str()) {
            Some(v) => v,
            None => DEFAULT_LOCAL_API_PORT,
        },
        None => DEFAULT_LOCAL_API_PORT,
    };
    let minimize = flag_or_default(&raw.minimize_to_tray, true);
    let proxy_on = flag_or_default(&raw.global_proxy_enabled, false);
    let proxy_url = match raw.global_proxy_url {
        Some(s) => if is_blank(&s) {
            None
        } else {
            Some(s)
        },
        None => None,
    };
    assert(""@ =~= Seq::<char>::empty()) by {
        reveal_strlit("");
    }
    SettingsSnapshot {
        default_download_dir: text_or_default(raw.default_download_dir, ""),
        bandwidth_limit_bps: limit,
        minimize_to_tray: minimize,
        theme: text_or_default(raw.theme, "dark"),
        skin: text_or_default(raw.skin, ""),
        global_hotkey: text_or_default(raw.global_hotkey, ""),
        global_proxy_enabled: proxy_on,
        global_proxy_url: proxy_url,
        local_api_port: port,
    }
}

/// Fills what first start needs: the download directory (with `fallback_dir`
/// where none is set), a theme (`dark` where blank), and a usable port.
pub fn with_bootstrap_defaults(s: &mut SettingsSnapshot, fallback_dir: String)
    ensures
        old(s).default_download_dir@.len() == 0 ==> final(s).default_download_dir == fallback_dir,
        old(s).default_download_dir@.len() > 0 ==> final(s).default_download_dir == old(s).default_download_dir,
        trim(old(s).theme@).len() == 0 ==> final(s).theme@ == "dark"@,
        trim(old(s).theme@).len() > 0 ==> final(s).theme == old(s).theme,
        old(s).local_api_port <= 0 ==> final(s).local_api_port == DEFAULT_LOCAL_API_PORT,
        old(s).local_api_port > 0 ==> final(s).local_api_port == old(s).local_api_port,
        final(s).bandwidth_limit_bps == old(s).bandwidth_limit_bps,
        final(s).minimize_to_tray == old(s).minimize_to_tray,
        final(s).global_proxy_enabled == old(s).global_proxy_enabled,
        final(s).global_proxy_url == old(s).global_proxy_url,
        final(s).skin == old(s).skin,
        final(s).global_hotkey == old(s).global_hotkey,
{
    if s.default_download_dir.as_str().is_empty() {
        s.default_download_dir = fallback_dir;
    }
    if is_blank(&s.theme) {
        s.theme = "dark".to_owned();
    }
    if s.local_api_port <= 0 {
        s.local_api_port = DEFAULT_LOCAL_API_PORT;
    }
}

} // verus!
