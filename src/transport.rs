//! Transport policy for one URL: which proxy, which extra headers, which mirrors.

use vstd::prelude::*;
use crate::model::{clone_opt, HeaderSpec, HeaderValueSpec, ProxyRule, RulesSnapshot, SettingsSnapshot};
use crate::pattern::{best_pattern_match, is_best, no_match};
use crate::text::{chars_of, lower, lower_chars, push_char, str_eq, string_of, trim, trim_range};
use crate::url::{opt_view, parse_url, url_host, url_origin, url_parses, UrlParts};

verus! {

/// `reqwest::header::HeaderName::from_bytes` accepts the name.
pub uninterp spec fn header_name_ok(name: Seq<char>) -> bool;

/// A character that `HeaderValue::from_str` accepts: visible ASCII, space,
/// tab, or any non-ASCII character (whose UTF-8 bytes are all at least 128).
pub open spec fn header_value_char_ok(c: char) -> bool {
    (c as u32 >= 32 && c as u32 != 127) || c == '\t'
}

/// Present and not blank.
pub open spec fn non_blank(o: Option<String>) -> Option<Seq<char>> {
    match o {
        Some(s) => if trim(s@).len() > 0 {
            Some(s@)
        } else {
            None
        },
        None => None,
    }
}

/// The proxy that a best-matching proxy rule asks for.
pub open spec fn rule_proxy(rule: ProxyRule, global: Option<String>) -> Option<Seq<char>> {
    if !rule.use_proxy {
        None
    } else {
        match rule.proxy_url_override {
            Some(o) => Some(o@),
            None => non_blank(global),
        }
    }
}

/// A mirror candidate: the base's origin with the original path and query.
pub open spec fn rebased(origin: Seq<char>, path: Seq<char>, query: Option<Seq<char>>) -> Seq<char> {
    match query {
        Some(q) => origin + path + seq!['?'] + q,
        None => origin + path,
    }
}

/// The candidates made from the parseable bases among `bases`, in order.
pub open spec fn rebased_all(bases: Seq<String>, path: Seq<char>, query: Option<Seq<char>>) -> Seq<Seq<char>>
    decreases bases.len(),
{
    if bases.len() == 0 {
        seq![]
    } else {
        let rest = rebased_all(bases.drop_last(), path, query);
        if url_parses(bases.last()@) {
            rest.push(rebased(url_origin(bases.last()@), path, query))
        } else {
            rest
        }
    }
}

pub open spec fn views(s: Seq<String>) -> Seq<Seq<char>> {
    s.map_values(|x: String| x@)
}

/// A header list as name/value pairs.
pub open spec fn header_view(h: Seq<(String, String)>) -> Seq<(Seq<char>, Seq<char>)> {
    h.map_values(|p: (String, String)| (p.0@, p.1@))
}

/// The first position of `name` in a header list.
pub open spec fn header_pos(h: Seq<(Seq<char>, Seq<char>)>, name: Seq<char>) -> Option<int>
    decreases h.len(),
{
    if h.len() == 0 {
        None
    } else {
        match header_pos(h.drop_last(), name) {
            Some(i) => Some(i),
            None => if h.last().0 == name {
                Some(h.len() - 1)
            } else {
                None
            },
        }
    }
}

/// Sets `name` to `value`: in place where the name is present, appended otherwise.
pub open spec fn header_put(h: Seq<(Seq<char>, Seq<char>)>, name: Seq<char>, value: Seq<char>) -> Seq<(Seq<char>, Seq<char>)> {
    match header_pos(h, name) {
        Some(i) => h.update(i, (name, value)),
        None => h.push((name, value)),
    }
}

/// The value and whether it is only added where missing, as a spec asks.
pub open spec fn spec_value_mode(v: HeaderValueSpec) -> Option<(Seq<char>, bool)> {
    match v {
        HeaderValueSpec::Plain(s) => Some((s@, false)),
        HeaderValueSpec::Detailed { value, mode } => {
            let val = match value {
                Some(s) => s@,
                None => Seq::<char>::empty(),
            };
            let only_missing = match mode {
                Some(m) => m@ == "add_if_missing"@ || m@ == "add"@,
                None => false,
            };
            Some((val, only_missing))
        },
        HeaderValueSpec::Unsupported => None,
    }
}

/// One header spec applied to a header list: skipped where the name or value is
/// empty or invalid; otherwise the lowercased name is set, unless the mode
/// only adds a missing header and the header is present.
pub open spec fn apply_spec(h: Seq<(Seq<char>, Seq<char>)>, spec: HeaderSpec, value_ok: bool) -> Seq<(Seq<char>, Seq<char>)> {
    match spec_value_mode(spec.value) {
        None => h,
        Some((value, only_missing)) => {
            let key = lower(spec.name@);
            if !header_name_ok(spec.name@) || value.len() == 0 || !value_ok {
                h
            } else if only_missing && header_pos(h, key) is Some {
                h
            } else {
                header_put(h, key, value)
            }
        },
    }
}

pub open spec fn spec_value_ok(v: HeaderValueSpec) -> bool {
    match spec_value_mode(v) {
        Some((value, _)) => forall|i: int| 0 <= i < value.len() ==> header_value_char_ok(#[trigger] value[i]),
        None => true,
    }
}

/// The specs of a rule applied in order.
pub open spec fn apply_specs(h: Seq<(Seq<char>, Seq<char>)>, specs: Seq<HeaderSpec>) -> Seq<(Seq<char>, Seq<char>)>
    decreases specs.len(),
{
    if specs.len() == 0 {
        h
    } else {
        apply_spec(
            apply_specs(h, specs.drop_last()),
            specs.last(),
            spec_value_ok(specs.last().value),
        )
    }
}

/// Relies on `reqwest::header::HeaderName::from_bytes`: whether the name is valid.
#[verifier::external_body]
fn header_name_valid(name: &str) -> (r: bool)
    ensures
        r == header_name_ok(name@),
{
    reqwest::header::HeaderName::from_bytes(name.as_bytes()).is_ok()
}

/// Relies on `reqwest::header::HeaderValue::from_str`, which accepts exactly
/// the strings whose bytes are all tab, or at least 32 and not 127.
#[verifier::external_body]
fn header_value_valid(value: &str) -> (r: bool)
    ensures
        r == (forall|i: int| 0 <= i < value@.len() ==> header_value_char_ok(#[trigger] value@[i])),
{
    reqwest::header::HeaderValue::from_str(value).is_ok()
}

fn non_blank_opt(o: &Option<String>) -> (r: Option<String>)
    ensures
        opt_view(r) == non_blank(*o),
{
    match o {
        Some(s) => {
            let v = chars_of(s.as_str());
            let (a, b) = trim_range(v.as_slice(), 0, v.len());
            assert(v@.subrange(0, v@.len() as int) =~= v@);
            if a < b {
                Some(s.clone())
            } else {
                None
            }
        },
        None => None,
    }
}

fn rebase(origin: &String, path: &String, query: &Option<String>) -> (r: String)
    ensures
        r@ == rebased(origin@, path@, opt_view(*query)),
{
    let mut s = origin.clone();
    s.append(path.as_str());
    match query {
        Some(q) => {
            push_char(&mut s, '?');
            s.append(q.as_str());
        },
        None => {},
    }
    s
}

/// Where `name` first stands in `headers`.
fn header_position(headers: &Vec<(String, String)>, name: &str) -> (r: Option<usize>)
    ensures
        header_pos(header_view(headers@), name@) == match r {
            Some(i) => Some(i as int),
            None => None::<int>,
        },
        r matches Some(i) ==> i < headers@.len(),
{
    let mut i: usize = 0;
    while i < headers.len()
        invariant
            i <= headers@.len(),
            header_pos(header_view(headers@.subrange(0, i as int)), name@) is None,
        decreases headers@.len() - i,
    {
        proof {
            assert(header_view(headers@.subrange(0, i + 1)).drop_last() =~= header_view(
                headers@.subrange(0, i as int),
            ));
        }
        if str_eq(headers[i].0.as_str(), name) {
            proof {
                assert(header_view(headers@.subrange(0, i + 1)) =~= header_view(headers@).subrange(
                    0,
                    i + 1,
                ));
                assert(header_pos(header_view(headers@.subrange(0, i + 1)), name@) == Some(i as int));
                lemma_header_pos_prefix(header_view(headers@), name@, i + 1);
            }
            return Some(i);
        }
        i += 1;
    }
    assert(headers@.subrange(0, headers@.len() as int) =~= headers@);
    None
}

/// A position found in a prefix is the position in the whole list.
proof fn lemma_header_pos_prefix(h: Seq<(Seq<char>, Seq<char>)>, name: Seq<char>, n: int)
    requires
        0 <= n <= h.len(),
        header_pos(h.subrange(0, n), name) is Some,
    ensures
        header_pos(h, name) == header_pos(h.subrange(0, n), name),
    decreases h.len() - n,
{
    if n < h.len() {
        assert(h.subrange(0, n + 1).drop_last() =~= h.subrange(0, n));
        lemma_header_pos_prefix(h, name, n + 1);
    } else {
        assert(h.subrange(0, n) =~= h);
    }
}

/// Applies one header spec to `headers`.
fn apply_one(headers: &mut Vec<(String, String)>, spec: &HeaderSpec)
    ensures
        header_view(final(headers)@) == apply_spec(
            header_view(old(headers)@),
            *spec,
            spec_value_ok(spec.value),
        ),
{
    let (value, only_missing) = match &spec.value {
        HeaderValueSpec::Plain(v) => (v.clone(), false),
        HeaderValueSpec::Detailed { value, mode } => {
            let val = match value {
                Some(v) => v.clone(),
                None => String::new(),
            };
            let om = match mode {
                Some(m) => str_eq(m.as_str(), "add_if_missing") || str_eq(m.as_str(), "add"),
                None => false,
            };
            (val, om)
        },
        HeaderValueSpec::Unsupported => return ,
    };
    if !header_name_valid(spec.name.as_str()) {
        return ;
    }
    let vchars = chars_of(value.as_str());
    if vchars.len() == 0 {
        return ;
    }
    if !header_value_valid(value.as_str()) {
        return ;
    }
    let lowered = lower_chars(chars_of(spec.name.as_str()).as_slice());
    let key = string_of(lowered.as_slice());
    let pos = header_position(headers, key.as_str());
    if only_missing && pos.is_some() {
        return ;
    }
    let ghost before = headers@;
    match pos {
        Some(i) => {
            headers[i] = (key, value);
            assert(header_view(headers@) =~= header_view(before).update(
                i as int,
                (lower(spec.name@), value@),
            ));
        },
        None => {
            headers.push((key, value));
            assert(header_view(headers@) =~= header_view(before).push((lower(spec.name@), value@)));
        },
    }
}

/// Policy for the URLs of a download; the HTTP clients live with the caller.
pub struct Transport;

impl Transport {
    /// The host of `url`, where it parses and has one.
    pub fn url_hostname(url: &str) -> (r: Option<String>)
        ensures
            opt_view(r) == if url_parses(url@) {
                url_host(url@)
            } else {
                None
            },
    {
        match parse_url(url) {
            Some(u) => u.host,
            None => None,
        }
    }

    /// The proxy for `url` by the rules: none while the global proxy is off or
    /// when no enabled rule matches; else what the best-matching rule says
    /// (its override, or the global proxy URL when that is not blank).
    pub fn effective_proxy_url(settings: &SettingsSnapshot, rules: &RulesSnapshot, url: &UrlParts) -> (r: Option<String>)
        ensures
            !settings.global_proxy_enabled ==> r is None,
            url.host is None ==> r is None,
            url.host matches Some(h) ==> settings.global_proxy_enabled ==> {
                &&& no_match(rules.proxy_rules@, h@) ==> r is None
                &&& forall|k: int|
                    is_best(rules.proxy_rules@, h@, k) ==> opt_view(r) == rule_proxy(
                        #[trigger] rules.proxy_rules@[k],
                        settings.global_proxy_url,
                    )
            },
    {
        if !settings.global_proxy_enabled {
            return None;
        }
        let host = match &url.host {
            Some(h) => h,
            None => return None,
        };
        match best_pattern_match(&rules.proxy_rules, host.as_str()) {
            None => None,
            Some(k) => {
                let rule = &rules.proxy_rules[k];
                proof {
                    assert forall|j: int| is_best(rules.proxy_rules@, host@, j) implies j == k by {
                        if j < k {
                        } else if j > k {
                        }
                    }
                }
                if !rule.use_proxy {
                    None
                } else {
                    match &rule.proxy_url_override {
                        Some(o) => Some(o.clone()),
                        None => non_blank_opt(&settings.global_proxy_url),
                    }
                }
            },
        }
    }

    /// The mirror candidates for `url`: for the best-matching enabled mirror
    /// rule, each of its bases that parses, with the base's origin in place of
    /// the original's and the original path and query kept.
    pub fn mirror_candidates(rules: &RulesSnapshot, url: &UrlParts) -> (r: Vec<String>)
        ensures
            url.host is None ==> r@.len() == 0,
            url.host matches Some(h) ==> {
                &&& no_match(rules.mirror_rules@, h@) ==> r@.len() == 0
                &&& forall|k: int|
                    is_best(rules.mirror_rules@, h@, k) ==> views(r@) == rebased_all(
                        #[trigger] rules.mirror_rules@[k].candidate_base_urls@,
                        url.path@,
                        opt_view(url.query),
                    )
            },
    {
        let host = match &url.host {
            Some(h) => h,
            None => return Vec::new(),
        };
        match best_pattern_match(&rules.mirror_rules, host.as_str()) {
            None => Vec::new(),
            Some(k) => {
                proof {
                    assert forall|j: int| is_best(rules.mirror_rules@, host@, j) implies j == k by {
                        if j < k {
                        } else if j > k {
                        }
                    }
                }
                let bases = &rules.mirror_rules[k].candidate_base_urls;
                let mut out: Vec<String> = Vec::new();
                let mut i: usize = 0;
                while i < bases.len()
                    invariant
                        i <= bases@.len(),
                        views(out@) == rebased_all(
                            bases@.subrange(0, i as int),
                            url.path@,
                            opt_view(url.query),
                        ),
                    decreases bases@.len() - i,
                {
                    proof {
                        assert(bases@.subrange(0, i + 1).drop_last() =~= bases@.subrange(0, i as int));
                    }
                    match parse_url(bases[i].as_str()) {
                        Some(b) => {
                            let c = rebase(&b.origin, &url.path, &url.query);
                            let ghost before = out@;
                            out.push(c);
                            assert(views(out@) =~= views(before).push(c@));
                        },
                        None => {},
                    }
                    i += 1;
                }
                assert(bases@.subrange(0, bases@.len() as int) =~= bases@);
                out
            },
        }
    }
}

impl Transport {
    /// Applies the best-matching enabled header rule for `url` to `headers`,
    /// spec by spec; with no host or no matching rule the headers stay as
    /// they are.
    pub fn apply_header_rules(rules: &RulesSnapshot, headers: &mut Vec<(String, String)>, url: &UrlParts)
        ensures
            url.host is None ==> final(headers)@ == old(headers)@,
            url.host matches Some(h) ==> {
                &&& no_match(rules.header_rules@, h@) ==> final(headers)@ == old(headers)@
                &&& forall|k: int|
                    is_best(rules.header_rules@, h@, k) ==> header_view(final(headers)@)
                        == apply_specs(
                        header_view(old(headers)@),
                        #[trigger] rules.header_rules@[k].headers@,
                    )
            },
    {
        let host = match &url.host {
            Some(h) => h,
            None => return ,
        };
        match best_pattern_match(&rules.header_rules, host.as_str()) {
            None => {},
            Some(k) => {
                proof {
                    assert forall|j: int| is_best(rules.header_rules@, host@, j) implies j == k by {
                        if j < k {
                        } else if j > k {
                        }
                    }
                }
                let specs = &rules.header_rules[k].headers;
                let ghost start = header_view(headers@);
                let mut i: usize = 0;
                while i < specs.len()
                    invariant
                        i <= specs@.len(),
                        header_view(headers@) == apply_specs(start, specs@.subrange(0, i as int)),
                    decreases specs@.len() - i,
                {
                    proof {
                        assert(specs@.subrange(0, i + 1).drop_last() =~= specs@.subrange(0, i as int));
                    }
                    apply_one(headers, &specs[i]);
                    i += 1;
                }
                assert(specs@.subrange(0, specs@.len() as int) =~= specs@);
            },
        }
    }
}

/// The proxy for one attempt: a download forced through a proxy uses its own
/// proxy URL, else the global one, where that is not blank; any other download
/// uses what the rules chose.
pub fn attempt_proxy(
    forced_proxy: bool,
    forced_proxy_url: &Option<String>,
    global_proxy_url: &Option<String>,
    rule_choice: Option<String>,
) -> (r: Option<String>)
    ensures
        !forced_proxy ==> r == rule_choice,
        forced_proxy ==> opt_view(r) == non_blank(
            if forced_proxy_url is Some {
                *forced_proxy_url
            } else {
                *global_proxy_url
            },
        ),
{
    if !forced_proxy {
        return rule_choice;
    }
    let chosen = match forced_proxy_url {
        Some(u) => Some(u.clone()),
        None => clone_opt(global_proxy_url),
    };
    non_blank_opt(&chosen)
}

} // verus!
