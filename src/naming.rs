//! File names: from `Content-Disposition`, from the URL, or a default; free of
//! collisions in the destination; and the temporary name of a transfer.

use vstd::prelude::*;
use crate::text::{
    chars_of, find, find_from, occurs_at, find_from_exec, lower, lower_chars, push_char, seq_eq, skip_ws_start,
    slice_chars, strip_char, strip_char_range, string_of, trim, trim_range, trim_start,
};
use crate::url::UrlParts;

verus! {

/// `urlencoding::decode` of the text: the percent-decoded text, or `None`
/// where the decoded bytes are not UTF-8.
pub uninterp spec fn url_decoded(s: Seq<char>) -> Option<Seq<char>>;

/// `sanitize_filename::sanitize_with_options` of the text, with Windows
/// rules, truncation, and an empty replacement.
pub uninterp spec fn sanitized(s: Seq<char>) -> Seq<char>;

/// The first extension `mime_guess::get_mime_extensions_str` lists for a
/// content type, if it knows the type.
pub uninterp spec fn mime_extension(content_type: Seq<char>) -> Option<Seq<char>>;

/// Relies on `urlencoding::decode`.
#[verifier::external_body]
fn percent_decode(s: &str) -> (r: Option<String>)
    ensures
        opt_seq(r) == url_decoded(s@),
{
    urlencoding::decode(s).ok().map(|v| v.into_owned())
}

/// Relies on `sanitize_filename::sanitize_with_options`, with Windows rules
/// on (so a name is the same, and valid, on every platform), truncation to
/// 255 bytes, and removed characters replaced by nothing.
#[verifier::external_body]
fn sanitize(s: &str) -> (r: String)
    ensures
        r@ == sanitized(s@),
{
    sanitize_filename::sanitize_with_options(
        s,
        sanitize_filename::Options { windows: true, truncate: true, replacement: "" },
    )
}

/// Relies on `mime_guess::get_mime_extensions_str`, taking its first extension.
#[verifier::external_body]
fn first_mime_extension(content_type: &str) -> (r: Option<String>)
    ensures
        opt_seq(r) == mime_extension(content_type@),
{
    mime_guess::get_mime_extensions_str(content_type).and_then(|e| e.first()).map(|e| e.to_string())
}

/// Relies on `usize`'s `Display`, which writes the number in decimal.
#[verifier::external_body]
fn decimal_string(n: usize) -> (r: String)
    ensures
        r@ == decimal(n as nat),
{
    n.to_string()
}

pub open spec fn opt_seq(o: Option<String>) -> Option<Seq<char>> {
    match o {
        Some(s) => Some(s@),
        None => None,
    }
}

pub open spec fn digit_char(d: nat) -> char {
    ((('0' as u32) as nat + d) as u32) as char
}

/// The decimal digits of `n`.
pub open spec fn decimal(n: nat) -> Seq<char>
    decreases n,
{
    if n < 10 {
        seq![digit_char(n)]
    } else {
        decimal(n / 10).push(digit_char(n % 10))
    }
}

pub open spec fn star_key() -> Seq<char> {
    seq!['f', 'i', 'l', 'e', 'n', 'a', 'm', 'e', '*', '=']
}

pub open spec fn plain_key() -> Seq<char> {
    seq!['f', 'i', 'l', 'e', 'n', 'a', 'm', 'e', '=']
}

pub open spec fn quote2() -> Seq<char> {
    seq!['\'', '\'']
}

/// Where a parameter value ends: at the first `;` outside double quotes, a
/// backslash inside quotes escaping the next character.
pub open spec fn param_end_from(s: Seq<char>, i: int, in_quotes: bool, escape: bool) -> int
    decreases s.len() - i,
{
    if i < 0 || i >= s.len() {
        s.len() as int
    } else if escape {
        param_end_from(s, i + 1, in_quotes, false)
    } else if s[i] == '\\' && in_quotes {
        param_end_from(s, i + 1, in_quotes, true)
    } else if s[i] == '"' {
        param_end_from(s, i + 1, !in_quotes, false)
    } else if s[i] == ';' && !in_quotes {
        i
    } else {
        param_end_from(s, i + 1, in_quotes, false)
    }
}

/// Every `%20` replaced by a space, left to right.
pub open spec fn replace_pct20(s: Seq<char>) -> Seq<char>
    decreases s.len(),
{
    if s.len() < 3 {
        s
    } else if s[0] == '%' && s[1] == '2' && s[2] == '0' {
        seq![' '] + replace_pct20(s.subrange(3, s.len() as int))
    } else {
        seq![s[0]] + replace_pct20(s.drop_first())
    }
}

/// Lenient decoding of a file name: percent-decoded, or with `%20` as space
/// where the decoding is not UTF-8.
pub open spec fn decode_like(s: Seq<char>) -> Seq<char> {
    match url_decoded(s) {
        Some(v) => v,
        None => replace_pct20(s),
    }
}

/// The value of the `filename*=` parameter found at `idx` of `c`.
pub open spec fn star_param(c: Seq<char>, idx: int) -> Seq<char> {
    let r0 = trim_start(c.subrange(idx + 10, c.len() as int));
    trim(r0.subrange(0, param_end_from(r0, 0, false, false)))
}

/// The name an extended `filename*=` value gives: the decoded text after the
/// charset's `''`, else the value itself unquoted, if not empty.
pub open spec fn star_filename(rest: Seq<char>) -> Option<Seq<char>> {
    let decoded = match find(rest, quote2()) {
        Some(pos) => url_decoded(strip_char(trim(rest.subrange(pos + 2, rest.len() as int)), '"')),
        None => None,
    };
    match decoded {
        Some(d) => Some(d),
        None => {
            let v = strip_char(rest, '"');
            if v.len() > 0 {
                Some(v)
            } else {
                None
            }
        },
    }
}

/// The name a plain `filename=` parameter gives, up to the next `;`, unquoted
/// and decoded, if not empty.
pub open spec fn plain_filename(c: Seq<char>, l: Seq<char>) -> Option<Seq<char>> {
    match find(l, plain_key()) {
        Some(idx) => {
            let rest = c.subrange(idx + 9, c.len() as int);
            let cut = match find(rest, seq![';']) {
                Some(k) => rest.subrange(0, k),
                None => rest,
            };
            let v = strip_char(trim(cut), '"');
            if v.len() > 0 {
                Some(decode_like(v))
            } else {
                None
            }
        },
        None => None,
    }
}

/// The file name a `Content-Disposition` value gives: `filename*=` first,
/// then `filename=`; parameter names match case-insensitively.
pub open spec fn disposition_filename(cd: Seq<char>) -> Option<Seq<char>> {
    let c = trim(cd);
    let l = lower(c);
    let star = match find(l, star_key()) {
        Some(idx) => star_filename(star_param(c, idx)),
        None => None,
    };
    match star {
        Some(v) => Some(v),
        None => plain_filename(c, l),
    }
}

/// The last segment of a path that starts with `/`.
pub open spec fn last_segment(path: Seq<char>) -> Option<Seq<char>> {
    if path.len() > 0 && path[0] == '/' {
        Some(path.subrange(last_slash(path) + 1, path.len() as int))
    } else {
        None
    }
}

/// The position of the last `/` in `path`, or -1.
pub open spec fn last_slash(path: Seq<char>) -> int
    decreases path.len(),
{
    if path.len() == 0 {
        -1
    } else if path.last() == '/' {
        path.len() - 1
    } else {
        last_slash(path.drop_last())
    }
}

pub open spec fn download_word() -> Seq<char> {
    seq!['d', 'o', 'w', 'n', 'l', 'o', 'a', 'd']
}

/// The name derived for a download: from `Content-Disposition` when it names
/// a file; else from the last URL path segment when that gives a usable name;
/// else `download`, with the content type's extension where one is known.
pub open spec fn derived_filename(path: Seq<char>, cd: Option<Seq<char>>, ct: Option<Seq<char>>) -> Seq<char> {
    let from_cd = match cd {
        Some(c) => match disposition_filename(c) {
            Some(n) => Some(sanitized(decode_like(n))),
            None => None,
        },
        None => None,
    };
    let from_url = match last_segment(path) {
        Some(seg) => if seg.len() > 0 {
            let s = sanitized(decode_like(seg));
            if s.len() > 0 && s != seq!['.'] {
                Some(s)
            } else {
                None
            }
        } else {
            None
        },
        None => None,
    };
    match from_cd {
        Some(n) => n,
        None => match from_url {
            Some(n) => n,
            None => match ct {
                Some(t) => match mime_extension(t) {
                    Some(e) => download_word() + seq!['.'] + e,
                    None => download_word(),
                },
                None => download_word(),
            },
        },
    }
}

/// Where a file name splits into stem and extension: at its last `.`, unless
/// that is its first character or the name is `..`.
pub open spec fn ext_dot(name: Seq<char>) -> Option<int> {
    let i = last_dot(name);
    if i <= 0 || name == seq!['.', '.'] {
        None
    } else {
        Some(i)
    }
}

pub open spec fn last_dot(s: Seq<char>) -> int
    decreases s.len(),
{
    if s.len() == 0 {
        -1
    } else if s.last() == '.' {
        s.len() - 1
    } else {
        last_dot(s.drop_last())
    }
}

/// `stem (n).ext`, or `name (n)` without an extension.
pub open spec fn suffixed(name: Seq<char>, n: nat) -> Seq<char> {
    let tag = seq![' ', '('] + decimal(n) + seq![')'];
    match ext_dot(name) {
        Some(i) => name.subrange(0, i) + tag + name.subrange(i, name.len() as int),
        None => name + tag,
    }
}

/// The `n`-th name tried for `base`: `base` itself, then `base (1)`, ...
pub open spec fn candidate(base: Seq<char>, n: nat) -> Seq<char> {
    if n == 0 {
        base
    } else {
        suffixed(base, n)
    }
}

/// Names tried before giving up.
pub const MAX_CANDIDATES: usize = 10000;

pub open spec fn taken(names: Seq<String>, s: Seq<char>) -> bool {
    exists|i: int| 0 <= i < names.len() && #[trigger] names[i]@ == s
}

/// The name that collision avoidance starts from.
pub open spec fn collision_base(desired: Seq<char>) -> Seq<char> {
    if sanitized(desired).len() == 0 {
        download_word()
    } else {
        sanitized(desired)
    }
}

/// The temporary file name of a download: `.zdmr-{id}.part`.
pub open spec fn temp_name(id: Seq<char>) -> Seq<char> {
    seq!['.', 'z', 'd', 'm', 'r', '-'] + id + seq!['.', 'p', 'a', 'r', 't']
}

fn key_chars(star: bool) -> (r: Vec<char>)
    ensures
        r@ == if star {
            star_key()
        } else {
            plain_key()
        },
{
    let r = if star {
        vec!['f', 'i', 'l', 'e', 'n', 'a', 'm', 'e', '*', '=']
    } else {
        vec!['f', 'i', 'l', 'e', 'n', 'a', 'm', 'e', '=']
    };
    assert(star ==> r@ =~= star_key());
    assert(!star ==> r@ =~= plain_key());
    r
}

pub open spec fn idx_opt(o: Option<usize>) -> Option<int> {
    match o {
        Some(i) => Some(i as int),
        None => None,
    }
}

pub open spec fn opt_str(o: Option<&str>) -> Option<Seq<char>> {
    match o {
        Some(s) => Some(s@),
        None => None,
    }
}

/// A found position is an occurrence, at or after the start.
proof fn lemma_find_from_occurs(s: Seq<char>, pat: Seq<char>, i: int)
    ensures
        find_from(s, pat, i) matches Some(k) ==> occurs_at(s, pat, k) && k >= i,
    decreases s.len() + 1 - i,
{
    if i < 0 || i + pat.len() > s.len() {
    } else if occurs_at(s, pat, i) {
    } else {
        lemma_find_from_occurs(s, pat, i + 1);
    }
}

fn find_in(v: &[char], pat: &[char]) -> (r: Option<usize>)
    ensures
        idx_opt(r) == find(v@, pat@),
        r matches Some(k) ==> k + pat@.len() <= v@.len(),
{
    let r = find_from_exec(v, pat, 0);
    proof {
        lemma_find_from_occurs(v@, pat@, 0);
    }
    r
}

/// Where the parameter value at the start of `s` ends.
fn param_end(s: &[char]) -> (r: usize)
    ensures
        r == param_end_from(s@, 0, false, false),
        r <= s@.len(),
{
    let mut i: usize = 0;
    let mut in_quotes = false;
    let mut escape = false;
    while i < s.len()
        invariant
            i <= s@.len(),
            param_end_from(s@, 0, false, false) == param_end_from(s@, i as int, in_quotes, escape),
        decreases s@.len() - i,
    {
        let ch = s[i];
        if escape {
            escape = false;
        } else if ch == '\\' && in_quotes {
            escape = true;
        } else if ch == '"' {
            in_quotes = !in_quotes;
        } else if ch == ';' && !in_quotes {
            return i;
        }
        i += 1;
    }
    i
}

fn replace_pct20_exec(s: &[char]) -> (r: Vec<char>)
    ensures
        r@ == replace_pct20(s@),
{
    let n = s.len();
    let mut out: Vec<char> = Vec::new();
    let mut i: usize = 0;
    assert(s@.subrange(0, n as int) =~= s@);
    while i < n
        invariant
            i <= n,
            n == s@.len(),
            out@ + replace_pct20(s@.subrange(i as int, n as int)) == replace_pct20(s@),
        decreases n - i,
    {
        let ghost rest = s@.subrange(i as int, n as int);
        if n - i >= 3 && s[i] == '%' && s[i + 1] == '2' && s[i + 2] == '0' {
            assert(rest.subrange(3, rest.len() as int) =~= s@.subrange(i + 3, n as int));
            assert(out@.push(' ') + replace_pct20(s@.subrange(i + 3, n as int)) =~= out@ + (seq![' ']
                + replace_pct20(s@.subrange(i + 3, n as int))));
            out.push(' ');
            i += 3;
        } else if n - i >= 3 {
            assert(rest.drop_first() =~= s@.subrange(i + 1, n as int));
            assert(out@.push(s@[i as int]) + replace_pct20(s@.subrange(i + 1, n as int)) =~= out@ + (
            seq![rest[0]] + replace_pct20(s@.subrange(i + 1, n as int))));
            out.push(s[i]);
            i += 1;
        } else {
            let tail = slice_chars(s, i, n);
            let ghost before = out@;
            let mut k: usize = 0;
            while k < tail.len()
                invariant
                    k <= tail@.len(),
                    out@ == before + tail@.subrange(0, k as int),
                decreases tail@.len() - k,
            {
                out.push(tail[k]);
                k += 1;
                assert(out@ =~= before + tail@.subrange(0, k as int));
            }
            assert(tail@.subrange(0, tail@.len() as int) =~= tail@);
            return out;
        }
    }
    assert(s@.subrange(n as int, n as int) =~= Seq::<char>::empty());
    assert(out@ + Seq::<char>::empty() =~= out@);
    out
}

/// Lenient decoding of a file name; see `decode_like`.
pub fn decode_filename_like(s: &str) -> (r: String)
    ensures
        r@ == decode_like(s@),
{
    match percent_decode(s) {
        Some(v) => v,
        None => {
            let v = chars_of(s);
            let out = replace_pct20_exec(v.as_slice());
            string_of(out.as_slice())
        },
    }
}

fn star_filename_exec(rest: &[char]) -> (r: Option<String>)
    ensures
        opt_seq(r) == star_filename(rest@),
{
    let q2: Vec<char> = vec!['\'', '\''];
    assert(q2@ =~= quote2());
    let n = rest.len();
    let decoded = match find_in(rest, q2.as_slice()) {
        Some(pos) => {
            let (ta, tb) = trim_range(rest, pos + 2, n);
            let (sa, sb) = strip_char_range(rest, ta, tb, '"');
            let enc = string_of(slice_chars(rest, sa, sb).as_slice());
            percent_decode(enc.as_str())
        },
        None => None,
    };
    match decoded {
        Some(d) => Some(d),
        None => {
            assert(rest@.subrange(0, n as int) =~= rest@);
            let (sa, sb) = strip_char_range(rest, 0, n, '"');
            if sa < sb {
                Some(string_of(slice_chars(rest, sa, sb).as_slice()))
            } else {
                None
            }
        },
    }
}

fn plain_filename_exec(c: &[char], l: &[char]) -> (r: Option<String>)
    requires
        l@ == lower(c@),
    ensures
        opt_seq(r) == plain_filename(c@, l@),
{
    let key = key_chars(false);
    assert(key@.len() == 9);
    assert(l@.len() == c@.len());
    let cn = c.len();
    match find_in(l, key.as_slice()) {
        Some(idx) => {
            let rest = slice_chars(c, idx + 9, cn);
            let semi: Vec<char> = vec![';'];
            assert(semi@ =~= seq![';']);
            let cut_end = match find_in(rest.as_slice(), semi.as_slice()) {
                Some(k) => k,
                None => rest.len(),
            };
            assert(rest@.subrange(0, rest@.len() as int) =~= rest@);
            let (ta, tb) = trim_range(rest.as_slice(), 0, cut_end);
            let (sa, sb) = strip_char_range(rest.as_slice(), ta, tb, '"');
            if sa < sb {
                let v = string_of(slice_chars(rest.as_slice(), sa, sb).as_slice());
                Some(decode_filename_like(v.as_str()))
            } else {
                None
            }
        },
        None => None,
    }
}

/// The file name a `Content-Disposition` value gives; see `disposition_filename`.
pub fn parse_content_disposition_filename(cd: &str) -> (r: Option<String>)
    ensures
        opt_seq(r) == disposition_filename(cd@),
{
    let v = chars_of(cd);
    assert(v@.subrange(0, v@.len() as int) =~= v@);
    let (a, b) = trim_range(v.as_slice(), 0, v.len());
    let c = slice_chars(v.as_slice(), a, b);
    let l = lower_chars(c.as_slice());
    let key = key_chars(true);
    assert(key@.len() == 10);
    assert(l@.len() == c@.len());
    let star = match find_in(l.as_slice(), key.as_slice()) {
        Some(idx) => {
            let s0 = skip_ws_start(c.as_slice(), idx + 10, c.len());
            let r0 = slice_chars(c.as_slice(), s0, c.len());
            let e = param_end(r0.as_slice());
            let (ra, rb) = trim_range(r0.as_slice(), 0, e);
            let rest = slice_chars(r0.as_slice(), ra, rb);
            star_filename_exec(rest.as_slice())
        },
        None => None,
    };
    match star {
        Some(v) => Some(v),
        None => plain_filename_exec(c.as_slice(), l.as_slice()),
    }
}

fn download_string() -> (r: String)
    ensures
        r@ == download_word(),
{
    let w: Vec<char> = vec!['d', 'o', 'w', 'n', 'l', 'o', 'a', 'd'];
    assert(w@ =~= download_word());
    string_of(w.as_slice())
}

/// A path that starts with `/` has a last `/`.
proof fn lemma_last_slash_found(p: Seq<char>)
    requires
        p.len() > 0,
        p[0] == '/',
    ensures
        0 <= last_slash(p) < p.len(),
    decreases p.len(),
{
    if p.last() != '/' {
        assert(p.drop_last()[0] == '/');
        lemma_last_slash_found(p.drop_last());
    }
}

/// Position of the last `c` in `v[..hi]`, found by scanning back.
fn last_index_of(v: &[char], c: char) -> (r: Option<usize>)
    ensures
        c == '/' ==> match r {
            Some(i) => i as int == last_slash(v@),
            None => last_slash(v@) == -1,
        },
        c == '.' ==> match r {
            Some(i) => i as int == last_dot(v@),
            None => last_dot(v@) == -1,
        },
        r matches Some(i) ==> i < v@.len(),
{
    let mut j = v.len();
    assert(v@.subrange(0, j as int) =~= v@);
    while j > 0
        invariant
            j <= v@.len(),
            c == '/' ==> last_slash(v@) == last_slash(v@.subrange(0, j as int)),
            c == '.' ==> last_dot(v@) == last_dot(v@.subrange(0, j as int)),
        decreases j,
    {
        if v[j - 1] == c {
            return Some(j - 1);
        }
        assert(v@.subrange(0, j as int).drop_last() =~= v@.subrange(0, j - 1));
        j -= 1;
    }
    None
}

/// The name for a download, from its URL and response headers; see
/// `derived_filename`.
pub fn filename_from_headers_and_url(
    url: &UrlParts,
    content_disposition: Option<&str>,
    content_type: Option<&str>,
) -> (r: String)
    ensures
        r@ == derived_filename(url.path@, opt_str(content_disposition), opt_str(content_type)),
{
    if let Some(cd) = content_disposition {
        if let Some(n) = parse_content_disposition_filename(cd) {
            let d = decode_filename_like(n.as_str());
            return sanitize(d.as_str());
        }
    }
    let p = chars_of(url.path.as_str());
    if p.len() > 0 && p[0] == '/' {
        proof {
            lemma_last_slash_found(p@);
        }
        let k = match last_index_of(p.as_slice(), '/') {
            Some(k) => k,
            None => 0,
        };
        let seg = slice_chars(p.as_slice(), k + 1, p.len());
        if seg.len() > 0 {
            let seg_s = string_of(seg.as_slice());
            let decoded = decode_filename_like(seg_s.as_str());
            let s = sanitize(decoded.as_str());
            let sc = chars_of(s.as_str());
            let dot: Vec<char> = vec!['.'];
            assert(dot@ =~= seq!['.']);
            if sc.len() > 0 && !seq_eq(sc.as_slice(), dot.as_slice()) {
                return s;
            }
        }
    }
    let mut base = download_string();
    if let Some(ct) = content_type {
        if let Some(ext) = first_mime_extension(ct) {
            push_char(&mut base, '.');
            base.append(ext.as_str());
        }
    }
    base
}

/// `original` with ` (n)` before its extension; see `suffixed`.
pub fn append_suffix(original: &str, n: usize) -> (r: String)
    ensures
        r@ == suffixed(original@, n as nat),
{
    let v = chars_of(original);
    let dd: Vec<char> = vec!['.', '.'];
    assert(dd@ =~= seq!['.', '.']);
    let split = match last_index_of(v.as_slice(), '.') {
        Some(i) => if i == 0 || seq_eq(v.as_slice(), dd.as_slice()) {
            None
        } else {
            Some(i)
        },
        None => None,
    };
    let stem_end = match split {
        Some(i) => i,
        None => v.len(),
    };
    let mut out = string_of(slice_chars(v.as_slice(), 0, stem_end).as_slice());
    push_char(&mut out, ' ');
    push_char(&mut out, '(');
    let digits = decimal_string(n);
    out.append(digits.as_str());
    push_char(&mut out, ')');
    let tail = string_of(slice_chars(v.as_slice(), stem_end, v.len()).as_slice());
    out.append(tail.as_str());
    proof {
        let tag = seq![' ', '('] + decimal(n as nat) + seq![')'];
        match ext_dot(original@) {
            Some(i) => {
                assert(out@ =~= original@.subrange(0, i) + tag + original@.subrange(i, original@.len() as int));
            },
            None => {
                assert(original@.subrange(0, original@.len() as int) =~= original@);
                assert(out@ =~= original@ + tag);
            },
        }
    }
    out
}

fn is_taken(existing: &Vec<String>, name: &String) -> (r: bool)
    ensures
        r == taken(existing@, name@),
{
    let mut i: usize = 0;
    while i < existing.len()
        invariant
            i <= existing@.len(),
            forall|k: int| 0 <= k < i ==> existing@[k]@ != name@,
        decreases existing@.len() - i,
    {
        if existing[i] == *name {
            return true;
        }
        i += 1;
    }
    false
}

/// The first name not among `existing`, trying the sanitized `desired` (or
/// `download` where that is empty), then the same with ` (1)`, ` (2)`, ...
/// before the extension; `None` when all of the first 10000 are taken.
pub fn choose_non_colliding_filename(desired: &str, existing: &Vec<String>) -> (r: Option<String>)
    ensures
        r matches Some(c) ==> exists|n: nat|
            n < MAX_CANDIDATES && c@ == #[trigger] candidate(collision_base(desired@), n) && !taken(
                existing@,
                c@,
            ) && forall|m: nat| m < n ==> taken(existing@, #[trigger] candidate(collision_base(desired@), m)),
        r is None ==> forall|m: nat|
            m < MAX_CANDIDATES ==> taken(existing@, #[trigger] candidate(collision_base(desired@), m)),
{
    let s = sanitize(desired);
    let base = if s.as_str().is_empty() {
        download_string()
    } else {
        s
    };
    let ghost b = collision_base(desired@);
    assert(base@ == b);
    if !is_taken(existing, &base) {
        assert(base@ == candidate(b, 0));
        return Some(base);
    }
    let mut n: usize = 1;
    while n < MAX_CANDIDATES
        invariant
            1 <= n <= MAX_CANDIDATES,
            base@ == b,
            b == collision_base(desired@),
            forall|m: nat| m < n ==> taken(existing@, #[trigger] candidate(b, m)),
        decreases MAX_CANDIDATES - n,
    {
        let c = append_suffix(base.as_str(), n);
        if !is_taken(existing, &c) {
            proof {
                let w = n as nat;
                assert(c@ == candidate(b, w));
                assert forall|m: nat| m < w implies taken(existing@, #[trigger] candidate(b, m)) by {}
                assert(w < MAX_CANDIDATES && c@ == candidate(collision_base(desired@), w) && !taken(
                    existing@,
                    c@,
                ) && forall|m: nat|
                    m < w ==> taken(existing@, #[trigger] candidate(collision_base(desired@), m)));
            }
            return Some(c);
        }
        assert(c@ == candidate(b, n as nat));
        n += 1;
    }
    None
}

/// The temporary file name of a download; see `temp_name`.
pub fn temp_file_name(download_id: &str) -> (r: String)
    ensures
        r@ == temp_name(download_id@),
{
    let pre: Vec<char> = vec!['.', 'z', 'd', 'm', 'r', '-'];
    let post: Vec<char> = vec!['.', 'p', 'a', 'r', 't'];
    let mut out = string_of(pre.as_slice());
    out.append(download_id);
    let tail = string_of(post.as_slice());
    out.append(tail.as_str());
    assert(out@ =~= temp_name(download_id@));
    out
}

} // verus!
