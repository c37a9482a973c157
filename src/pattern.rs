//! Host globs (`exact`, `*.suffix`, `*`) and the choice of the best-matching rule.

use vstd::prelude::*;
use crate::text::{
    chars_of, ends_with, ends_with_exec, lower, lower_chars, seq_eq, slice_chars, strip_start_char, trim,
    trim_range,
};
use crate::model::{HeaderRule, MirrorRule, ProxyRule};

verus! {

/// Trimmed and ASCII-lowercased.
pub open spec fn norm(s: Seq<char>) -> Seq<char> {
    lower(trim(s))
}

/// Whether host `host` matches the glob `pattern`. Both are compared trimmed
/// and case-insensitively; `*.suffix` matches proper subdomains of `suffix`
/// only, `*` matches every host.
pub open spec fn host_matches(pattern: Seq<char>, host: Seq<char>) -> bool {
    let p = norm(pattern);
    let h = norm(host);
    if p.len() == 0 {
        false
    } else if !p.contains('*') {
        p == h
    } else if p.len() >= 2 && p[0] == '*' && p[1] == '.' {
        ends_with(h, p.subrange(1, p.len() as int))
    } else {
        p.len() == 1 && p[0] == '*'
    }
}

/// `s` without any leading run of `*.`.
pub open spec fn strip_star_dots(s: Seq<char>) -> Seq<char>
    decreases s.len(),
{
    if s.len() >= 2 && s[0] == '*' && s[1] == '.' {
        strip_star_dots(s.subrange(2, s.len() as int))
    } else {
        s
    }
}

/// Specificity of a pattern: exact patterns (class 2) beat wildcards
/// (class 1); within a class the longer pattern (for a wildcard, the longer
/// suffix) wins. Lengths count characters.
pub open spec fn specificity(pattern: Seq<char>) -> (u8, usize) {
    if !pattern.contains('*') {
        (2u8, pattern.len() as usize)
    } else {
        (1u8, strip_start_char(strip_star_dots(pattern), '*').len() as usize)
    }
}

pub open spec fn more_specific(a: (u8, usize), b: (u8, usize)) -> bool {
    a.0 > b.0 || (a.0 == b.0 && a.1 > b.1)
}

/// A rule that applies to hosts matching its pattern.
pub trait PatternRule {
    spec fn pattern_view(&self) -> Seq<char>;

    spec fn enabled_view(&self) -> bool;

    fn pattern(&self) -> (r: &str)
        ensures
            r@ == self.pattern_view(),
    ;

    fn is_enabled(&self) -> (r: bool)
        ensures
            r == self.enabled_view(),
    ;
}

impl PatternRule for ProxyRule {
    open spec fn pattern_view(&self) -> Seq<char> {
        self.pattern@
    }

    open spec fn enabled_view(&self) -> bool {
        self.enabled
    }

    fn pattern(&self) -> (r: &str) {
        self.pattern.as_str()
    }

    fn is_enabled(&self) -> (r: bool) {
        self.enabled
    }
}

impl PatternRule for HeaderRule {
    open spec fn pattern_view(&self) -> Seq<char> {
        self.pattern@
    }

    open spec fn enabled_view(&self) -> bool {
        self.enabled
    }

    fn pattern(&self) -> (r: &str) {
        self.pattern.as_str()
    }

    fn is_enabled(&self) -> (r: bool) {
        self.enabled
    }
}

impl PatternRule for MirrorRule {
    open spec fn pattern_view(&self) -> Seq<char> {
        self.pattern@
    }

    open spec fn enabled_view(&self) -> bool {
        self.enabled
    }

    fn pattern(&self) -> (r: &str) {
        self.pattern.as_str()
    }

    fn is_enabled(&self) -> (r: bool) {
        self.enabled
    }
}

/// Rule `i` is enabled and matches `host`.
pub open spec fn eligible<T: PatternRule>(rules: Seq<T>, host: Seq<char>, i: int) -> bool {
    0 <= i < rules.len() && rules[i].enabled_view() && host_matches(rules[i].pattern_view(), host)
}

/// Rule `k` is the best match: eligible, no eligible rule more specific, and
/// strictly more specific than every eligible rule before it.
pub open spec fn is_best<T: PatternRule>(rules: Seq<T>, host: Seq<char>, k: int) -> bool {
    &&& eligible(rules, host, k)
    &&& forall|j: int|
        eligible(rules, host, j) ==> !more_specific(
            specificity(#[trigger] rules[j].pattern_view()),
            specificity(rules[k].pattern_view()),
        )
    &&& forall|j: int|
        0 <= j < k && eligible(rules, host, j) ==> more_specific(
            specificity(rules[k].pattern_view()),
            specificity(#[trigger] rules[j].pattern_view()),
        )
}

pub open spec fn no_match<T: PatternRule>(rules: Seq<T>, host: Seq<char>) -> bool {
    forall|j: int| !eligible(rules, host, j)
}

/// `s` trimmed and lowercased.
pub fn norm_chars(s: &str) -> (r: Vec<char>)
    ensures
        r@ == norm(s@),
{
    let v = chars_of(s);
    let (a, b) = trim_range(v.as_slice(), 0, v.len());
    assert(v@.subrange(0, v@.len() as int) =~= v@);
    let t = slice_chars(v.as_slice(), a, b);
    lower_chars(t.as_slice())
}

pub fn contains_char(v: &[char], c: char) -> (r: bool)
    ensures
        r == v@.contains(c),
{
    let mut i: usize = 0;
    while i < v.len()
        invariant
            i <= v@.len(),
            forall|k: int| 0 <= k < i ==> v@[k] != c,
        decreases v@.len() - i,
    {
        if v[i] == c {
            return true;
        }
        i += 1;
    }
    false
}

/// Whether `host` matches the glob `pattern`.
pub fn pattern_matches(pattern: &str, host: &str) -> (r: bool)
    ensures
        r == host_matches(pattern@, host@),
{
    let p = norm_chars(pattern);
    let h = norm_chars(host);
    if p.len() == 0 {
        false
    } else if !contains_char(p.as_slice(), '*') {
        seq_eq(p.as_slice(), h.as_slice())
    } else if p.len() >= 2 && p[0] == '*' && p[1] == '.' {
        let suffix = slice_chars(p.as_slice(), 1, p.len());
        ends_with_exec(h.as_slice(), suffix.as_slice())
    } else {
        p.len() == 1 && p[0] == '*'
    }
}

/// How specific `pattern` is; see `specificity`.
pub fn pattern_specificity(pattern: &str) -> (r: (u8, usize))
    ensures
        r == specificity(pattern@),
{
    let v = chars_of(pattern);
    if !contains_char(v.as_slice(), '*') {
        return (2, v.len());
    }
    let n = v.len();
    assert(v@.subrange(0, n as int) =~= v@);
    let mut i: usize = 0;
    while n - i >= 2 && v[i] == '*' && v[i + 1] == '.'
        invariant
            i <= n,
            n == v@.len(),
            strip_star_dots(v@) == strip_star_dots(v@.subrange(i as int, n as int)),
        decreases n - i,
    {
        assert(v@.subrange(i as int, n as int).subrange(2, n - i) =~= v@.subrange(i + 2, n as int));
        i += 2;
    }
    let mut j = i;
    while j < n && v[j] == '*'
        invariant
            i <= j <= n,
            n == v@.len(),
            strip_start_char(v@.subrange(i as int, n as int), '*') == strip_start_char(
                v@.subrange(j as int, n as int),
                '*',
            ),
        decreases n - j,
    {
        assert(v@.subrange(j as int, n as int).drop_first() =~= v@.subrange(j + 1, n as int));
        j += 1;
    }
    (1, n - j)
}

fn is_more_specific(a: (u8, usize), b: (u8, usize)) -> (r: bool)
    ensures
        r == more_specific(a, b),
{
    a.0 > b.0 || (a.0 == b.0 && a.1 > b.1)
}

/// The index of the best-matching enabled rule for `host`, if any rule matches.
pub fn best_pattern_match<T: PatternRule>(rules: &Vec<T>, host: &str) -> (r: Option<usize>)
    ensures
        r is None <==> no_match(rules@, host@),
        r matches Some(k) ==> is_best(rules@, host@, k as int),
{
    let mut best: Option<(usize, (u8, usize))> = None;
    let mut i: usize = 0;
    while i < rules.len()
        invariant
            i <= rules@.len(),
            best is None ==> forall|j: int| 0 <= j < i ==> !eligible(rules@, host@, j),
            best matches Some(b) ==> {
                &&& b.0 < i
                &&& b.1 == specificity(rules@[b.0 as int].pattern_view())
                &&& eligible(rules@, host@, b.0 as int)
                &&& forall|j: int|
                    0 <= j < i && eligible(rules@, host@, j) ==> !more_specific(
                        specificity(#[trigger] rules@[j].pattern_view()),
                        b.1,
                    )
                &&& forall|j: int|
                    0 <= j < b.0 && eligible(rules@, host@, j) ==> more_specific(
                        b.1,
                        specificity(#[trigger] rules@[j].pattern_view()),
                    )
            },
        decreases rules@.len() - i,
    {
        let r = &rules[i];
        if r.is_enabled() && pattern_matches(r.pattern(), host) {
            let s = pattern_specificity(r.pattern());
            let replace = match best {
                None => true,
                Some((_, bs)) => is_more_specific(s, bs),
            };
            if replace {
                best = Some((i, s));
            }
        }
        i += 1;
    }
    match best {
        None => None,
        Some((k, _)) => Some(k),
    }
}

} // verus!
