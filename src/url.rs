//! URL syntax: an optional protocol, a subdomain, a top-level domain (by its
//! own grammar, or from a whitelist that the caller supplies) and an optional
//! suffix, matched against the whole input.
use vstd::prelude::*;
use crate::chars::{alnum, chars_of, is_ascii_alnum, is_ascii_letter, letter};
use crate::error::ValidationError;

verus! {

/// A character allowed in the subdomain: an ASCII letter or digit, `.` or `-`.
pub open spec fn is_subdomain_char(c: char) -> bool {
    is_ascii_alnum(c) || c == '.' || c == '-'
}

/// A character allowed between the leading dot and the last letter of a
/// top-level domain.
pub open spec fn is_tld_inner_char(c: char) -> bool {
    is_ascii_letter(c) || c == '.'
}

/// The characters that open the suffix.
pub open spec fn is_separator(c: char) -> bool {
    c == '/' || c == '#'
}

/// The top-level-domain grammar: a dot, one or more letters or dots, and a
/// final letter. A run of leading dots (`..a`) is accepted.
pub open spec fn is_default_tld(t: Seq<char>) -> bool {
    &&& t.len() >= 3
    &&& t[0] == '.'
    &&& forall|i: int| 1 <= i < t.len() - 1 ==> #[trigger] is_tld_inner_char(t[i])
    &&& is_ascii_letter(t[t.len() - 1])
}

/// A protocol prefix: one or more ASCII letters or digits, then `://`.
pub open spec fn is_protocol(p: Seq<char>) -> bool {
    &&& p.len() >= 4
    &&& p[p.len() - 3] == ':'
    &&& p[p.len() - 2] == '/'
    &&& p[p.len() - 1] == '/'
    &&& forall|i: int| 0 <= i < p.len() - 3 ==> #[trigger] is_ascii_alnum(p[i])
}

/// One or more subdomain characters.
pub open spec fn is_subdomain(s: Seq<char>) -> bool {
    &&& s.len() > 0
    &&& forall|i: int| 0 <= i < s.len() ==> #[trigger] is_subdomain_char(s[i])
}

/// The suffix: empty, or anything that starts with `/` or `#`.
pub open spec fn is_suffix(f: Seq<char>) -> bool {
    f.len() == 0 || is_separator(f[0])
}

/// Every whitelist entry meets the top-level-domain grammar.
pub open spec fn is_valid_whitelist(w: Seq<Seq<char>>) -> bool {
    forall|i: int| 0 <= i < w.len() ==> #[trigger] is_default_tld(w[i])
}

/// The top-level domain: by its grammar without a whitelist, else one of the
/// entries, literally.
pub open spec fn is_accepted_tld(t: Seq<char>, whitelist: Option<Seq<Seq<char>>>) -> bool {
    match whitelist {
        None => is_default_tld(t),
        Some(w) => w.contains(t),
    }
}

/// `u` splits at `a <= b <= c` into protocol, subdomain, top-level domain and
/// suffix.
pub open spec fn is_url_split(
    u: Seq<char>,
    whitelist: Option<Seq<Seq<char>>>,
    a: int,
    b: int,
    c: int,
) -> bool {
    &&& 0 <= a <= b <= c <= u.len()
    &&& (a == 0 || is_protocol(u.subrange(0, a)))
    &&& is_subdomain(u.subrange(a, b))
    &&& is_accepted_tld(u.subrange(b, c), whitelist)
    &&& is_suffix(u.subrange(c, u.len() as int))
}

/// The whole of `u` matches the URL grammar.
pub open spec fn is_url(u: Seq<char>, whitelist: Option<Seq<Seq<char>>>) -> bool {
    exists|a: int, b: int, c: int| #[trigger] is_url_split(u, whitelist, a, b, c)
}

/// The whitelist as text.
pub open spec fn whitelist_view(w: Option<&Vec<&str>>) -> Option<Seq<Seq<char>>> {
    match w {
        Some(v) => Some(v@.map_values(|s: &str| s@)),
        None => None,
    }
}

/// The whitelist as character vectors.
pub open spec fn entries_view(w: Option<Vec<Vec<char>>>) -> Option<Seq<Seq<char>>> {
    match w {
        Some(v) => Some(v@.map_values(|e: Vec<char>| e@)),
        None => None,
    }
}

fn subdomain_char(c: char) -> (r: bool)
    ensures
        r == is_subdomain_char(c),
{
    alnum(c) || c == '.' || c == '-'
}

/// Whether `cs[b..c]` meets the top-level-domain grammar.
fn default_tld_at(cs: &Vec<char>, b: usize, c: usize) -> (r: bool)
    requires
        b <= c <= cs@.len(),
    ensures
        r == is_default_tld(cs@.subrange(b as int, c as int)),
{
    let ghost t = cs@.subrange(b as int, c as int);
    if c - b < 3 || cs[b] != '.' || !letter(cs[c - 1]) {
        return false;
    }
    let mut i: usize = b + 1;
    while i < c - 1
        invariant
            b + 1 <= i <= c - 1,
            c <= cs@.len(),
            t == cs@.subrange(b as int, c as int),
            forall|j: int| 1 <= j < i - b ==> #[trigger] is_tld_inner_char(t[j]),
        decreases c - i,
    {
        if !(letter(cs[i]) || cs[i] == '.') {
            assert(!is_tld_inner_char(t[i - b]));
            return false;
        }
        i += 1;
    }
    true
}

/// Whether `top_level_domain` meets the top-level-domain grammar: a dot, one
/// or more letters or dots, and a final letter.
pub fn is_valid_top_level_domain(top_level_domain: &str) -> (r: bool)
    ensures
        r == is_default_tld(top_level_domain@),
{
    let cs = chars_of(top_level_domain);
    assert(cs@.subrange(0, cs@.len() as int) =~= cs@);
    default_tld_at(&cs, 0, cs.len())
}

/// Whether `cs[b..c]` is exactly `e`.
fn equal_at(cs: &Vec<char>, b: usize, c: usize, e: &Vec<char>) -> (r: bool)
    requires
        b <= c <= cs@.len(),
    ensures
        r == (cs@.subrange(b as int, c as int) == e@),
{
    if c - b != e.len() {
        return false;
    }
    let mut i: usize = 0;
    while i < e.len()
        invariant
            c - b == e@.len(),
            b <= c <= cs@.len(),
            i <= e@.len(),
            forall|j: int| 0 <= j < i ==> cs@[b + j] == #[trigger] e@[j],
        decreases e@.len() - i,
    {
        if cs[b + i] != e[i] {
            assert(cs@.subrange(b as int, c as int)[i as int] != e@[i as int]);
            return false;
        }
        i += 1;
    }
    assert(cs@.subrange(b as int, c as int) =~= e@);
    true
}

/// Whether `cs[b..c]` is an accepted top-level domain.
fn accepted_tld_at(cs: &Vec<char>, b: usize, c: usize, whitelist: &Option<Vec<Vec<char>>>) -> (r:
    bool)
    requires
        b <= c <= cs@.len(),
    ensures
        r == is_accepted_tld(cs@.subrange(b as int, c as int), entries_view(*whitelist)),
{
    match whitelist {
        None => default_tld_at(cs, b, c),
        Some(entries) => {
            let ghost t = cs@.subrange(b as int, c as int);
            let ghost w = entries_view(*whitelist).unwrap();
            let mut i: usize = 0;
            while i < entries.len()
                invariant
                    i <= entries@.len(),
                    b <= c <= cs@.len(),
                    t == cs@.subrange(b as int, c as int),
                    *whitelist == Some(*entries),
                    w == entries_view(*whitelist).unwrap(),
                    w.len() == entries@.len(),
                    forall|j: int| 0 <= j < i ==> #[trigger] w[j] != t,
                decreases entries@.len() - i,
            {
                if equal_at(cs, b, c, &entries[i]) {
                    assert(w[i as int] == t);
                    return true;
                }
                assert(w[i as int] == entries@[i as int]@);
                i += 1;
            }
            false
        },
    }
}

/// No character of an accepted top-level domain opens the suffix.
proof fn lemma_tld_has_no_separator(t: Seq<char>, whitelist: Option<Seq<Seq<char>>>, i: int)
    requires
        is_accepted_tld(t, whitelist),
        whitelist matches Some(w) ==> is_valid_whitelist(w),
        0 <= i < t.len(),
    ensures
        !is_separator(t[i]),
{
    let d = match whitelist {
        None => t,
        Some(w) => {
            let k = choose|k: int| 0 <= k < w.len() && w[k] == t;
            assert(is_default_tld(w[k]));
            w[k]
        },
    };
    assert(is_default_tld(d) && d == t);
    if 1 <= i < t.len() - 1 {
        assert(is_tld_inner_char(t[i]));
    }
}

/// Where a split of `u` that starts its subdomain at `a` puts the suffix: at
/// the first separator from `a` on, or at the end.
proof fn lemma_suffix_position(
    u: Seq<char>,
    whitelist: Option<Seq<Seq<char>>>,
    a: int,
    b: int,
    c: int,
    first: int,
)
    requires
        is_url_split(u, whitelist, a, b, c),
        whitelist matches Some(w) ==> is_valid_whitelist(w),
        a <= first <= u.len(),
        forall|j: int| a <= j < first ==> !is_separator(#[trigger] u[j]),
        first == u.len() || is_separator(u[first]),
    ensures
        c == first,
{
    let f = u.subrange(c, u.len() as int);
    if c < first {
        assert(f[0] == u[c]);
        assert(!is_separator(u[c]));
    } else if c > first {
        if first < b {
            assert(is_subdomain_char(u.subrange(a, b)[first - a]));
        } else {
            lemma_tld_has_no_separator(u.subrange(b, c), whitelist, first - b);
            assert(u.subrange(b, c)[first - b] == u[first]);
        }
    }
}

/// Whether `cs` splits with the subdomain starting at `a`.
fn matches_from(cs: &Vec<char>, a: usize, whitelist: &Option<Vec<Vec<char>>>) -> (r: bool)
    requires
        a <= cs@.len(),
        a == 0 || is_protocol(cs@.subrange(0, a as int)),
        entries_view(*whitelist) matches Some(w) ==> is_valid_whitelist(w),
    ensures
        r == exists|b: int, c: int| #[trigger]
            is_url_split(cs@, entries_view(*whitelist), a as int, b, c),
{
    let ghost u = cs@;
    let ghost wl = entries_view(*whitelist);
    let mut c: usize = a;
    while c < cs.len() && cs[c] != '/' && cs[c] != '#'
        invariant
            a <= c <= cs@.len(),
            forall|j: int| a <= j < c ==> !is_separator(#[trigger] cs@[j]),
        decreases cs@.len() - c,
    {
        c += 1;
    }
    assert(c == u.len() || is_separator(u[c as int]));
    assert(is_suffix(u.subrange(c as int, u.len() as int)));
    let mut b: usize = a;
    while b < c
        invariant
            a <= b <= c <= cs@.len(),
            u == cs@,
            wl == entries_view(*whitelist),
            forall|j: int| a <= j < c ==> !is_separator(#[trigger] u[j]),
            c == u.len() || is_separator(u[c as int]),
            is_suffix(u.subrange(c as int, u.len() as int)),
            a == 0 || is_protocol(u.subrange(0, a as int)),
            wl matches Some(w) ==> is_valid_whitelist(w),
            forall|j: int| a <= j < b ==> #[trigger] is_subdomain_char(u[j]),
            forall|k: int|
                a < k <= b ==> !#[trigger] is_accepted_tld(u.subrange(k, c as int), wl),
        decreases c - b,
    {
        if !subdomain_char(cs[b]) {
            assert forall|k: int, m: int| !#[trigger] is_url_split(u, wl, a as int, k, m) by {
                if is_url_split(u, wl, a as int, k, m) {
                    lemma_suffix_position(u, wl, a as int, k, m, c as int);
                    if k > b {
                        assert(is_subdomain_char(u.subrange(a as int, k)[b - a]));
                    }
                }
            }
            return false;
        }
        b += 1;
        if accepted_tld_at(cs, b, c, whitelist) {
            assert(is_subdomain(u.subrange(a as int, b as int))) by {
                assert forall|j: int| 0 <= j < b - a implies #[trigger] is_subdomain_char(
                    u.subrange(a as int, b as int)[j],
                ) by {
                    assert(is_subdomain_char(u[a + j]));
                }
            }
            assert(is_url_split(u, wl, a as int, b as int, c as int));
            return true;
        }
    }
    assert forall|k: int, m: int| !#[trigger] is_url_split(u, wl, a as int, k, m) by {
        if is_url_split(u, wl, a as int, k, m) {
            lemma_suffix_position(u, wl, a as int, k, m, c as int);
        }
    }
    false
}

/// A protocol prefix can only end three characters after the run of letters
/// and digits that starts `u`.
proof fn lemma_protocol_end(u: Seq<char>, a: int, k: int)
    requires
        0 < a <= u.len(),
        is_protocol(u.subrange(0, a)),
        0 <= k <= u.len(),
        forall|j: int| 0 <= j < k ==> #[trigger] is_ascii_alnum(u[j]),
        k == u.len() || !is_ascii_alnum(u[k]),
    ensures
        a == k + 3,
{
    let p = u.subrange(0, a);
    assert(p[a - 3] == u[a - 3]);
    if a - 3 < k {
        assert(is_ascii_alnum(u[a - 3]));
    } else if a - 3 > k {
        assert(is_ascii_alnum(p[k]));
    }
}

/// Whether the whole of `cs` matches the URL grammar.
fn matches_url(cs: &Vec<char>, whitelist: &Option<Vec<Vec<char>>>) -> (r: bool)
    requires
        entries_view(*whitelist) matches Some(w) ==> is_valid_whitelist(w),
    ensures
        r == is_url(cs@, entries_view(*whitelist)),
{
    let ghost u = cs@;
    let ghost wl = entries_view(*whitelist);
    let mut k: usize = 0;
    while k < cs.len() && alnum(cs[k])
        invariant
            k <= cs@.len(),
            forall|j: int| 0 <= j < k ==> #[trigger] is_ascii_alnum(cs@[j]),
        decreases cs@.len() - k,
    {
        k += 1;
    }
    let has_protocol = k >= 1 && cs.len() - k >= 3 && cs[k] == ':' && cs[k + 1] == '/' && cs[k
        + 2] == '/';
    if has_protocol {
        let ghost p = u.subrange(0, k + 3);
        assert(is_protocol(p)) by {
            assert forall|i: int| 0 <= i < p.len() - 3 implies #[trigger] is_ascii_alnum(p[i]) by {
                assert(is_ascii_alnum(u[i]));
            }
        }
    }
    let bare = matches_from(cs, 0, whitelist);
    let r = bare || (has_protocol && matches_from(cs, k + 3, whitelist));
    if r {
        assert(is_url(u, wl));
    } else {
        assert forall|a: int, b: int, c: int| !#[trigger] is_url_split(u, wl, a, b, c) by {
            if is_url_split(u, wl, a, b, c) && a != 0 {
                lemma_protocol_end(u, a, k as int);
                let p = u.subrange(0, a);
                assert(p[a - 3] == u[k as int]);
                assert(p[a - 2] == u[k + 1]);
                assert(p[a - 1] == u[k + 2]);
            }
        }
    }
    r
}

/// Checks every whitelist entry against the top-level-domain grammar before
/// any of them is used, and returns the entries as characters; without a
/// whitelist, the grammar itself stands for the top-level domain.
fn whitelist_grammar(top_level_domains_whitelist: Option<&Vec<&str>>) -> (r: Result<
    Option<Vec<Vec<char>>>,
    ValidationError,
>)
    ensures
        match whitelist_view(top_level_domains_whitelist) {
            Some(w) if !is_valid_whitelist(w) => r == Err::<Option<Vec<Vec<char>>>, ValidationError>(
                ValidationError::InvalidWhitelistEntry,
            ),
            wl => r matches Ok(entries) && entries_view(entries) == wl && (wl matches Some(w)
                ==> is_valid_whitelist(w)),
        },
{
    let ghost wl = whitelist_view(top_level_domains_whitelist);
    match top_level_domains_whitelist {
        None => Ok(None),
        Some(domains) => {
            let ghost w = wl.unwrap();
            let mut v: Vec<Vec<char>> = Vec::new();
            let mut i: usize = 0;
            while i < domains.len()
                invariant
                    i <= domains@.len(),
                    wl == whitelist_view(top_level_domains_whitelist),
                    top_level_domains_whitelist == Some(domains),
                    w == wl.unwrap(),
                    w.len() == domains@.len(),
                    v@.len() == i,
                    forall|j: int| 0 <= j < i ==> #[trigger] v@[j]@ == w[j],
                    forall|j: int| 0 <= j < i ==> #[trigger] is_default_tld(w[j]),
                decreases domains@.len() - i,
            {
                assert(w[i as int] == domains@[i as int]@);
                if !is_valid_top_level_domain(domains[i]) {
                    assert(!is_valid_whitelist(w));
                    return Err(ValidationError::InvalidWhitelistEntry);
                }
                v.push(chars_of(domains[i]));
                i += 1;
            }
            assert(entries_view(Some(v)).unwrap() =~= w);
            assert(is_valid_whitelist(w));
            Ok(Some(v))
        },
    }
}

/// Whether `url_input`, as a whole, is a URL: an optional protocol (letters
/// or digits, then `://`), a subdomain (letters, digits, `.`, `-`), a
/// top-level domain, and an optional suffix that starts with `/` or `#`.
/// Without a whitelist the top-level domain follows its own grammar; with one
/// it is one of the entries, and every entry must itself meet that grammar,
/// else the call fails with `InvalidWhitelistEntry` whatever the URL.
pub fn validate_url(url_input: &str, top_level_domains_whitelist: Option<&Vec<&str>>) -> (r:
    Result<bool, ValidationError>)
    ensures
        match whitelist_view(top_level_domains_whitelist) {
            Some(w) if !is_valid_whitelist(w) => r == Err::<bool, ValidationError>(
                ValidationError::InvalidWhitelistEntry,
            ),
            wl => r == Ok::<bool, ValidationError>(is_url(url_input@, wl)),
        },
{
    let entries = match whitelist_grammar(top_level_domains_whitelist) {
        Err(e) => {
            return Err(e);
        },
        Ok(entries) => entries,
    };
    let cs = chars_of(url_input);
    Ok(matches_url(&cs, &entries))
}

} // verus!
