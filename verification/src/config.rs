//! Service configuration read from environment values.

use vstd::prelude::*;

use crate::text::{
    chars_eq, from_chars, lower, lower_chars, to_chars, trim, trim_bounds, trimmed, views, words,
    words_chars,
};

verus! {

/// A configuration error: the message names the offending variable.
#[derive(Debug, Clone, PartialEq, Eq)]
pub enum ConfigError {
    /// `<name> must be set`
    NotSet(String),
    /// `<name> must be true or false`
    NotBoolean(String),
}

impl ConfigError {
    /// The human-readable message of the error.
    pub open spec fn spec_message(&self) -> Seq<char> {
        match self {
            ConfigError::NotSet(name) => name@ + " must be set"@,
            ConfigError::NotBoolean(name) => name@ + " must be true or false"@,
        }
    }

    pub fn message(&self) -> (m: String)
        ensures
            m@ == self.spec_message(),
    {
        match self {
            ConfigError::NotSet(name) => name.clone().concat(" must be set"),
            ConfigError::NotBoolean(name) => name.clone().concat(" must be true or false"),
        }
    }
}

/// Whether `s` holds only whitespace.
pub open spec fn is_blank(s: Seq<char>) -> bool {
    trim(s).len() == 0
}

/// A set value that is not blank.
pub open spec fn spec_optional_value(value: Option<Seq<char>>) -> Option<Seq<char>> {
    match value {
        Some(s) => if is_blank(s) {
            None
        } else {
            Some(s)
        },
        None => None,
    }
}

/// Keeps a set value unless it is blank.
pub fn optional_value(value: Option<&String>) -> (r: Option<String>)
    ensures
        r.deep_view() == spec_optional_value(value.deep_view()),
{
    match value {
        Some(s) => {
            let t = trimmed(s.as_str());
            if t.as_str().is_empty() {
                None
            } else {
                Some(s.clone())
            }
        },
        None => None,
    }
}

/// The value, or an error naming the variable when it is missing.
pub fn required_value(value: Option<String>, name: &str) -> (r: Result<String, ConfigError>)
    ensures
        match value {
            Some(v) => r == Ok::<String, ConfigError>(v),
            None => r matches Err(ConfigError::NotSet(n)) && n@ == name@,
        },
{
    match value {
        Some(v) => Ok(v),
        None => Err(ConfigError::NotSet(name.to_owned())),
    }
}

/// The boolean spelled by a configuration value, ignoring surrounding whitespace and ASCII case.
pub open spec fn bool_word(s: Seq<char>) -> Option<bool> {
    let w = lower(trim(s));
    if w == "true"@ || w == "1"@ || w == "yes"@ {
        Some(true)
    } else if w == "false"@ || w == "0"@ || w == "no"@ {
        Some(false)
    } else {
        None
    }
}

/// Reads an optional boolean: `true`, `1`, `yes` or `false`, `0`, `no`, in any ASCII case.
pub fn parse_bool(value: Option<&String>, name: &str) -> (r: Result<Option<bool>, ConfigError>)
    ensures
        match value {
            None => r == Ok::<Option<bool>, ConfigError>(None),
            Some(v) => match bool_word(v@) {
                Some(b) => r == Ok::<Option<bool>, ConfigError>(Some(b)),
                None => r matches Err(ConfigError::NotBoolean(n)) && n@ == name@,
            },
        },
{
    let v = match value {
        None => return Ok(None),
        Some(v) => v,
    };
    let chars = to_chars(v.as_str());
    let (lo, hi) = trim_bounds(&chars);
    let t = to_chars(from_chars(&chars, lo, hi).as_str());
    let w = lower_chars(&t);
    if chars_eq(&w, "true") || chars_eq(&w, "1") || chars_eq(&w, "yes") {
        Ok(Some(true))
    } else if chars_eq(&w, "false") || chars_eq(&w, "0") || chars_eq(&w, "no") {
        Ok(Some(false))
    } else {
        Err(ConfigError::NotBoolean(name.to_owned()))
    }
}

/// Whether a flag value is `1`, `true` or `yes` in any ASCII case, without trimming.
pub open spec fn flag_word(s: Seq<char>) -> bool {
    let w = lower(s);
    w == "1"@ || w == "true"@ || w == "yes"@
}

/// Reads an optional flag that is off unless set to `1`, `true` or `yes`.
pub fn env_flag(value: Option<&String>) -> (r: bool)
    ensures
        r == match value {
            Some(v) => flag_word(v@),
            None => false,
        },
{
    match value {
        Some(v) => {
            let w = lower_chars(&to_chars(v.as_str()));
            chars_eq(&w, "1") || chars_eq(&w, "true") || chars_eq(&w, "yes")
        },
        None => false,
    }
}

/// The requested OIDC scopes: the whitespace-separated words, with `openid` first when absent.
pub open spec fn spec_scopes(s: Seq<char>) -> Seq<Seq<char>> {
    let ws = words(s);
    if ws.contains("openid"@) {
        ws
    } else {
        seq!["openid"@] + ws
    }
}

/// The character sequences held by a sequence of strings.
pub open spec fn string_views(v: Seq<String>) -> Seq<Seq<char>> {
    Seq::new(v.len(), |i: int| v[i]@)
}

/// Splits the configured scopes and makes sure `openid` is requested.
pub fn parse_scopes(value: &str) -> (r: Vec<String>)
    ensures
        string_views(r@) == spec_scopes(value@),
{
    let ws = words_chars(&to_chars(value));
    let mut scopes: Vec<String> = Vec::new();
    let mut has_openid = false;
    let mut i: usize = 0;
    while i < ws.len()
        invariant
            i <= ws@.len(),
            views(ws@) == words(value@),
            string_views(scopes@) == views(ws@).take(i as int),
            has_openid == views(ws@).take(i as int).contains("openid"@),
        decreases ws@.len() - i,
    {
        let ghost before = scopes@;
        let w = &ws[i];
        let s = from_chars(w, 0, w.len());
        assert(w@.subrange(0, w@.len() as int) == w@);
        let is_openid = chars_eq(w, "openid");
        scopes.push(s);
        proof {
            let p = views(ws@).take(i as int);
            let q = views(ws@).take(i + 1);
            assert(q == p.push(w@));
            assert(string_views(scopes@) =~= string_views(before).push(w@));
            if is_openid {
                assert(q[i as int] == "openid"@);
            } else if p.contains("openid"@) {
                let k = choose|k: int| 0 <= k < p.len() && p[k] == "openid"@;
                assert(q[k] == "openid"@);
            } else if q.contains("openid"@) {
                let k = choose|k: int| 0 <= k < q.len() && q[k] == "openid"@;
                assert(k < i ==> p[k] == "openid"@);
            }
        }
        has_openid = has_openid || is_openid;
        i += 1;
    }
    assert(views(ws@).take(ws@.len() as int) == views(ws@));
    if !has_openid {
        let ghost before = scopes@;
        scopes.insert(0, "openid".to_owned());
        assert(string_views(scopes@) =~= seq!["openid"@] + string_views(before));
    }
    scopes
}

/// The requested scopes always include `openid`.
pub proof fn law_scopes_request_openid(s: Seq<char>)
    ensures
        spec_scopes(s).contains("openid"@),
{
    if !words(s).contains("openid"@) {
        assert((seq!["openid"@] + words(s))[0] == "openid"@);
    }
}

/// What `http::Uri` parses from `s`: `None` when it is not a URI, else the scheme and the
/// authority that the parsed URI holds.
pub uninterp spec fn uri_scheme_authority(s: Seq<char>) -> Option<(Option<Seq<char>>, Option<Seq<char>>)>;

/// Parses `s` as an `http::Uri` (through `poem::http`) and returns its scheme and authority.
/// Trusted: the result is `uri_scheme_authority(s@)`, a function of `s` alone; nothing more
/// about the URI grammar is stated.
#[verifier::external_body]
fn parse_uri(s: &str) -> (r: Option<(Option<String>, Option<String>)>)
    ensures
        match r {
            Some((scheme, authority)) => uri_scheme_authority(s@) == Some(
                (scheme.deep_view(), authority.deep_view()),
            ),
            None => uri_scheme_authority(s@) is None,
        },
{
    match s.parse::<poem::http::Uri>() {
        Ok(uri) => Some(
            (uri.scheme_str().map(|x| x.to_owned()), uri.authority().map(|a| a.as_str().to_owned())),
        ),
        Err(_) => None,
    }
}

/// An endpoint is usable when it parses as an HTTP(S) URI with an authority.
pub open spec fn spec_valid_endpoint(endpoint: Seq<char>) -> Option<Seq<char>> {
    match uri_scheme_authority(endpoint) {
        Some((scheme, authority)) => if authority is Some && (scheme == Some("http"@) || scheme
            == Some("https"@)) {
            Some(endpoint)
        } else {
            None
        },
        None => None,
    }
}

/// Keeps `endpoint` when it is an HTTP(S) URI with an authority.
pub fn valid_endpoint(endpoint: String) -> (r: Option<String>)
    ensures
        r.deep_view() == spec_valid_endpoint(endpoint@),
{
    match parse_uri(endpoint.as_str()) {
        Some((scheme, authority)) => {
            let http = match &scheme {
                Some(sc) => {
                    let c = to_chars(sc.as_str());
                    chars_eq(&c, "http") || chars_eq(&c, "https")
                },
                None => false,
            };
            if authority.is_some() && http {
                Some(endpoint)
            } else {
                None
            }
        },
        None => None,
    }
}

/// The OTLP traces endpoint under a collector base URL.
pub open spec fn spec_append_trace_path(endpoint: Seq<char>) -> Seq<char> {
    crate::text::trim_end_char(endpoint, '/') + "/v1/traces"@
}

/// Appends `/v1/traces` to a collector base URL, without doubling its trailing slashes.
pub fn append_trace_path(endpoint: &str) -> (r: String)
    ensures
        r@ == spec_append_trace_path(endpoint@),
{
    let v = to_chars(endpoint);
    let n = crate::text::trim_end_char_len(&v, '/');
    from_chars(&v, 0, n).concat("/v1/traces")
}

/// The collector base URL used when none is configured.
pub open spec fn default_otlp_endpoint() -> Seq<char> {
    "http://127.0.0.1:4318"@
}

/// The traces endpoint: the explicit traces endpoint when valid, else the generic (or default)
/// base URL with `/v1/traces` when valid, else the default base URL with `/v1/traces`.
pub open spec fn spec_resolve_otlp_endpoint(
    trace_endpoint: Option<Seq<char>>,
    generic_endpoint: Option<Seq<char>>,
) -> Seq<char> {
    let explicit = match trace_endpoint {
        Some(t) => spec_valid_endpoint(t),
        None => None,
    };
    match explicit {
        Some(t) => t,
        None => {
            let base = match generic_endpoint {
                Some(g) => g,
                None => default_otlp_endpoint(),
            };
            match spec_valid_endpoint(spec_append_trace_path(base)) {
                Some(e) => e,
                None => spec_append_trace_path(default_otlp_endpoint()),
            }
        },
    }
}

/// Chooses the OTLP traces endpoint.
pub fn resolve_otlp_endpoint(trace_endpoint: Option<&str>, generic_endpoint: Option<&str>) -> (r:
    String)
    ensures
        r@ == spec_resolve_otlp_endpoint(
            match trace_endpoint {
                Some(t) => Some(t@),
                None => None,
            },
            match generic_endpoint {
                Some(g) => Some(g@),
                None => None,
            },
        ),
{
    let explicit = match trace_endpoint {
        Some(t) => valid_endpoint(t.to_owned()),
        None => None,
    };
    match explicit {
        Some(t) => t,
        None => {
            let base = match generic_endpoint {
                Some(g) => g,
                None => "http://127.0.0.1:4318",
            };
            match valid_endpoint(append_trace_path(base)) {
                Some(e) => e,
                None => append_trace_path("http://127.0.0.1:4318"),
            }
        },
    }
}

/// Whether `c` is an ASCII digit.
pub open spec fn is_digit(c: char) -> bool {
    '0' <= c <= '9'
}

/// The number written by the decimal digits `s`.
pub open spec fn digits_value(s: Seq<char>) -> nat
    decreases s.len(),
{
    if s.len() == 0 {
        0
    } else {
        digits_value(s.drop_last()) * 10 + ((s.last() as u32) - ('0' as u32)) as nat
    }
}

/// Whether every character of `d` is an ASCII digit.
pub open spec fn all_digits(d: Seq<char>) -> bool {
    forall|i: int| 0 <= i < d.len() ==> is_digit(#[trigger] d[i])
}

/// The characters of `s` after an optional leading `+`.
pub open spec fn unsigned_digits(s: Seq<char>) -> Seq<char> {
    if s.len() > 0 && s[0] == '+' {
        s.drop_first()
    } else {
        s
    }
}

/// The `u64` that `str::parse::<u64>` reads from `s`: an optional `+` then at least one
/// decimal digit, with a value that fits.
pub open spec fn spec_parse_u64(s: Seq<char>) -> Option<u64> {
    let d = unsigned_digits(s);
    if d.len() > 0 && all_digits(d) && digits_value(d) <= u64::MAX {
        Some(digits_value(d) as u64)
    } else {
        None
    }
}

proof fn lemma_digits_prefix(d: Seq<char>, k: int)
    requires
        0 <= k <= d.len(),
        forall|i: int| 0 <= i < d.len() ==> is_digit(#[trigger] d[i]),
    ensures
        digits_value(d.take(k)) <= digits_value(d),
    decreases d.len() - k,
{
    if k < d.len() {
        lemma_digits_prefix(d, k + 1);
        assert(d.take(k + 1).drop_last() == d.take(k));
    } else {
        assert(d.take(k) == d);
    }
}

/// Reads a millisecond count.
pub fn parse_timeout(value: &str) -> (r: Option<u64>)
    ensures
        r == spec_parse_u64(value@),
{
    let s = to_chars(value);
    let start: usize = if s.len() > 0 && s[0] == '+' {
        1
    } else {
        0
    };
    let ghost d = if s@.len() > 0 && s@[0] == '+' {
        s@.drop_first()
    } else {
        s@
    };
    assert(d == s@.skip(start as int));
    if start >= s.len() {
        return None;
    }
    let mut acc: u64 = 0;
    let mut i = start;
    while i < s.len()
        invariant
            s@ == value@,
            start == 0 || start == 1,
            start == 1 <==> (s@.len() > 0 && s@[0] == '+'),
            start <= i <= s@.len(),
            d == s@.skip(start as int),
            d == unsigned_digits(value@),
            forall|j: int| 0 <= j < i - start ==> is_digit(#[trigger] d[j]),
            acc as nat == digits_value(d.take(i - start)),
        decreases s@.len() - i,
    {
        let c = s[i];
        if !('0' <= c && c <= '9') {
            assert(d[i - start] == c);
            assert(!is_digit(d[i - start]));
            return None;
        }
        let digit = (c as u32 - '0' as u32) as u64;
        assert(d.take(i + 1 - start).drop_last() == d.take(i - start));
        if acc > (u64::MAX - digit) / 10 {
            proof {
                assert forall|j: int| 0 <= j < i + 1 - start implies is_digit(
                    #[trigger] d.take(i + 1 - start)[j],
                ) by {
                    assert(d.take(i + 1 - start)[j] == d[j]);
                }
                assert(digits_value(d.take(i + 1 - start)) > u64::MAX);
                if all_digits(d) {
                    lemma_digits_prefix(d, i + 1 - start);
                }
            }
            return None;
        }
        acc = acc * 10 + digit;
        i += 1;
    }
    assert(d.take(d.len() as int) == d);
    Some(acc)
}

/// The exporter timeout in milliseconds used when none is configured.
pub open spec fn default_otlp_timeout_ms() -> u64 {
    10_000
}

/// The traces timeout, else the generic timeout, else the default.
pub open spec fn spec_resolve_otlp_timeout(
    trace_timeout: Option<Seq<char>>,
    generic_timeout: Option<Seq<char>>,
) -> u64 {
    let t = match trace_timeout {
        Some(t) => spec_parse_u64(t),
        None => None,
    };
    let g = match generic_timeout {
        Some(g) => spec_parse_u64(g),
        None => None,
    };
    match t {
        Some(v) => v,
        None => match g {
            Some(v) => v,
            None => default_otlp_timeout_ms(),
        },
    }
}

/// The exporter timeout is the first of the traces timeout and the generic timeout that reads
/// as a millisecond count; when neither does, it is ten seconds.
pub proof fn law_otlp_timeout_precedence(
    trace_timeout: Option<Seq<char>>,
    generic_timeout: Option<Seq<char>>,
    n: u64,
)
    ensures
        trace_timeout is Some && spec_parse_u64(trace_timeout->0) == Some(n)
            ==> spec_resolve_otlp_timeout(trace_timeout, generic_timeout) == n,
        (trace_timeout is None || spec_parse_u64(trace_timeout->0) is None) && generic_timeout is Some
            && spec_parse_u64(generic_timeout->0) == Some(n)
            ==> spec_resolve_otlp_timeout(trace_timeout, generic_timeout) == n,
        (trace_timeout is None || spec_parse_u64(trace_timeout->0) is None) && (generic_timeout is None
            || spec_parse_u64(generic_timeout->0) is None)
            ==> spec_resolve_otlp_timeout(trace_timeout, generic_timeout) == 10_000,
{
}

/// Chooses the exporter timeout in milliseconds.
pub fn resolve_otlp_timeout(trace_timeout: Option<&str>, generic_timeout: Option<&str>) -> (r: u64)
    ensures
        r == spec_resolve_otlp_timeout(
            match trace_timeout {
                Some(t) => Some(t@),
                None => None,
            },
            match generic_timeout {
                Some(g) => Some(g@),
                None => None,
            },
        ),
{
    let t = match trace_timeout {
        Some(t) => parse_timeout(t),
        None => None,
    };
    match t {
        Some(v) => v,
        None => {
            let g = match generic_timeout {
                Some(g) => parse_timeout(g),
                None => None,
            };
            match g {
                Some(v) => v,
                None => 10_000,
            }
        },
    }
}

/// The `name=value` header held by one comma-separated piece, both sides trimmed.
pub open spec fn header_pair(piece: Seq<char>) -> Option<(Seq<char>, Seq<char>)> {
    let i = crate::text::first_index(piece, '=');
    if i < 0 {
        None
    } else {
        Some((trim(piece.take(i)), trim(piece.skip(i + 1))))
    }
}

/// The headers held by the pieces, in order; pieces without `=` are skipped.
pub open spec fn header_pairs(pieces: Seq<Seq<char>>) -> Seq<(Seq<char>, Seq<char>)>
    decreases pieces.len(),
{
    if pieces.len() == 0 {
        Seq::empty()
    } else {
        let rest = header_pairs(pieces.drop_last());
        match header_pair(pieces.last()) {
            Some(p) => rest.push(p),
            None => rest,
        }
    }
}

/// The map built from the pairs in order: a later pair replaces an earlier one of the same name.
pub open spec fn header_map(pairs: Seq<(Seq<char>, Seq<char>)>) -> Map<Seq<char>, Seq<char>>
    decreases pairs.len(),
{
    if pairs.len() == 0 {
        Map::empty()
    } else {
        header_map(pairs.drop_last()).insert(pairs.last().0, pairs.last().1)
    }
}

/// The headers configured by a comma-separated `name=value` list.
pub open spec fn spec_headers(value: Seq<char>) -> Map<Seq<char>, Seq<char>> {
    header_map(header_pairs(crate::text::split(value, ',')))
}

/// Whether `pairs` lists each name once.
pub open spec fn distinct_names(pairs: Seq<(String, String)>) -> bool {
    forall|a: int, b: int|
        0 <= a < pairs.len() && 0 <= b < pairs.len() && a != b ==> #[trigger] pairs[a].0@
            != #[trigger] pairs[b].0@
}

/// Whether `pairs` lists exactly the entries of `m`, each name once.
pub open spec fn lists_map(pairs: Seq<(String, String)>, m: Map<Seq<char>, Seq<char>>) -> bool {
    &&& distinct_names(pairs)
    &&& forall|j: int|
        0 <= j < pairs.len() ==> m.contains_key(#[trigger] pairs[j].0@) && m[pairs[j].0@]
            == pairs[j].1@
    &&& forall|k: Seq<char>|
        #[trigger] m.contains_key(k) ==> exists|j: int| 0 <= j < pairs.len() && pairs[j].0@ == k
}

/// The trimmed text of `v[lo..hi]`.
fn trimmed_range(v: &Vec<char>, lo: usize, hi: usize) -> (r: String)
    requires
        lo <= hi <= v@.len(),
    ensures
        r@ == trim(v@.subrange(lo as int, hi as int)),
{
    trimmed(from_chars(v, lo, hi).as_str())
}

/// Reads exporter headers from a comma-separated `name=value` list; a later entry for a
/// name replaces an earlier one, and pieces without `=` are ignored.
pub fn parse_headers(value: &str) -> (r: Vec<(String, String)>)
    ensures
        lists_map(r@, spec_headers(value@)),
{
    let pieces = crate::text::split_chars(&to_chars(value), ',');
    let ghost ps = views(pieces@);
    let mut out: Vec<(String, String)> = Vec::new();
    let mut i: usize = 0;
    while i < pieces.len()
        invariant
            i <= pieces@.len(),
            ps == views(pieces@),
            ps == crate::text::split(value@, ','),
            lists_map(out@, header_map(header_pairs(ps.take(i as int)))),
        decreases pieces@.len() - i,
    {
        let ghost m0 = header_map(header_pairs(ps.take(i as int)));
        assert(ps.take(i + 1).drop_last() == ps.take(i as int));
        assert(ps.take(i + 1).last() == ps[i as int]);
        let piece = &pieces[i];
        assert(ps[i as int] == piece@);
        match crate::text::find_char(piece, '=') {
            Some(eq) => {
                let name = trimmed_range(piece, 0, eq);
                let plen = piece.len();
                let val = trimmed_range(piece, eq + 1, plen);
                assert(piece@.subrange(0, eq as int) == piece@.take(eq as int));
                assert(piece@.subrange(eq + 1, piece@.len() as int) == piece@.skip(eq + 1));
                let ghost m1 = m0.insert(name@, val@);
                proof {
                    let prev = header_pairs(ps.take(i as int));
                    assert(header_pair(piece@) == Some((name@, val@)));
                    assert(header_pairs(ps.take(i + 1)) == prev.push((name@, val@)));
                    assert(prev.push((name@, val@)).drop_last() == prev);
                }
                let mut j: usize = 0;
                let mut found: Option<usize> = None;
                while j < out.len()
                    invariant
                        j <= out@.len(),
                        found is None ==> forall|k: int| 0 <= k < j ==> #[trigger] out@[k].0@
                            != name@,
                        found matches Some(f) ==> f < out@.len() && out@[f as int].0@ == name@,
                    decreases out@.len() - j,
                {
                    if found.is_none() && out[j].0 == name {
                        found = Some(j);
                    }
                    j += 1;
                }
                let ghost before = out@;
                match found {
                    Some(f) => {
                        out.set(f, (name, val));
                        proof {
                            assert forall|a: int, b: int|
                                0 <= a < out@.len() && 0 <= b < out@.len() && a != b implies
                                #[trigger] out@[a].0@ != #[trigger] out@[b].0@ by {
                                assert(before[a].0@ != before[b].0@);
                            }
                            assert forall|k: Seq<char>| #[trigger] m1.contains_key(k) implies exists|
                                j: int,
                            | 0 <= j < out@.len() && out@[j].0@ == k by {
                                if k != name@ {
                                    let w = choose|w: int| 0 <= w < before.len() && before[w].0@ == k;
                                    assert(out@[w].0@ == k);
                                } else {
                                    assert(out@[f as int].0@ == k);
                                }
                            }
                        }
                    },
                    None => {
                        out.push((name, val));
                        proof {
                            assert forall|a: int, b: int|
                                0 <= a < out@.len() && 0 <= b < out@.len() && a != b implies
                                #[trigger] out@[a].0@ != #[trigger] out@[b].0@ by {
                                if a < before.len() && b < before.len() {
                                    assert(before[a].0@ != before[b].0@);
                                } else if a < before.len() {
                                    assert(before[a].0@ != name@);
                                } else {
                                    assert(before[b].0@ != name@);
                                }
                            }
                            assert forall|k: Seq<char>| #[trigger] m1.contains_key(k) implies exists|
                                j: int,
                            | 0 <= j < out@.len() && out@[j].0@ == k by {
                                if k != name@ {
                                    let w = choose|w: int| 0 <= w < before.len() && before[w].0@ == k;
                                    assert(out@[w].0@ == k);
                                } else {
                                    assert(out@[before.len() as int].0@ == k);
                                }
                            }
                        }
                    },
                }
            },
            None => {
                assert(header_map(header_pairs(ps.take(i + 1))) == m0);
            },
        }
        i += 1;
    }
    assert(ps.take(pieces@.len() as int) == ps);
    out
}

/// Environment values read at startup, one per variable; `None` when unset.
#[derive(Debug, Clone, Default)]
pub struct RawEnv {
    pub database_url: Option<String>,
    pub test_database_url: Option<String>,
    pub host: Option<String>,
    pub port: Option<String>,
    pub cookie_secure: Option<String>,
    pub dev_auth_enabled: Option<String>,
    pub oidc_issuer_url: Option<String>,
    pub oidc_client_id: Option<String>,
    pub oidc_client_secret: Option<String>,
    pub oidc_redirect_uri: Option<String>,
    pub oidc_audience: Option<String>,
    pub oidc_post_login_redirect_uri: Option<String>,
    pub oidc_scopes: Option<String>,
    pub rust_log: Option<String>,
    pub otel_enabled: Option<String>,
    pub otel_service_name: Option<String>,
    pub otel_exporter_otlp_endpoint: Option<String>,
    pub otel_exporter_otlp_traces_endpoint: Option<String>,
    pub otel_exporter_otlp_timeout: Option<String>,
    pub otel_exporter_otlp_traces_timeout: Option<String>,
    pub otel_exporter_otlp_compression: Option<String>,
    pub otel_exporter_otlp_traces_compression: Option<String>,
    pub otel_exporter_otlp_headers: Option<String>,
    pub otel_exporter_otlp_traces_headers: Option<String>,
}

/// The non-blank value of an environment variable.
pub open spec fn env_value(v: Option<String>) -> Option<Seq<char>> {
    spec_optional_value(v.deep_view())
}

/// `a`, else `b`.
pub open spec fn either(a: Option<Seq<char>>, b: Option<Seq<char>>) -> Option<Seq<char>> {
    match a {
        Some(x) => Some(x),
        None => b,
    }
}

/// `a`, else `d`.
pub open spec fn or_default(a: Option<Seq<char>>, d: Seq<char>) -> Seq<char> {
    match a {
        Some(x) => x,
        None => d,
    }
}

/// `Some(s@)` for `Some(s)`.
pub open spec fn str_view(o: Option<&str>) -> Option<Seq<char>> {
    match o {
        Some(s) => Some(s@),
        None => None,
    }
}

/// The `(variable, missing)` failure of a configuration error: `missing` for "must be set",
/// otherwise "must be true or false".
pub open spec fn failure(e: ConfigError) -> (Seq<char>, bool) {
    match e {
        ConfigError::NotSet(name) => (name@, true),
        ConfigError::NotBoolean(name) => (name@, false),
    }
}

/// Database settings.
pub struct DatabaseConfig {
    database_url: String,
}

impl DatabaseConfig {
    /// The configured connection URL.
    pub closed spec fn spec_url(&self) -> Seq<char> {
        self.database_url@
    }

    fn from_raw(raw: &RawEnv) -> (r: Result<Self, ConfigError>)
        ensures
            match env_value(raw.database_url) {
                Some(u) => r matches Ok(c) && c.spec_url() == u,
                None => r matches Err(e) && failure(e) == ("DATABASE_URL"@, true),
            },
    {
        let url = required_value(optional_value(raw.database_url.as_ref()), "DATABASE_URL")?;
        Ok(DatabaseConfig { database_url: url })
    }

    /// Reads the database settings from the environment values; `DATABASE_URL` is required.
    pub fn from_env(env: &RawEnv) -> (r: Result<Self, ConfigError>)
        ensures
            match env_value(env.database_url) {
                Some(u) => r matches Ok(c) && c.spec_url() == u,
                None => r matches Err(e) && failure(e) == ("DATABASE_URL"@, true),
            },
    {
        Self::from_raw(env)
    }

    pub fn url(&self) -> (r: &str)
        ensures
            r@ == self.spec_url(),
    {
        self.database_url.as_str()
    }
}

/// The connection URL of the database that database tests run against: `TEST_DATABASE_URL`,
/// which must be set.
pub fn test_database_url(env: &RawEnv) -> (r: Result<String, ConfigError>)
    ensures
        match env_value(env.test_database_url) {
            Some(u) => r matches Ok(s) && s@ == u,
            None => r matches Err(e) && failure(e) == ("TEST_DATABASE_URL"@, true),
        },
{
    required_value(optional_value(env.test_database_url.as_ref()), "TEST_DATABASE_URL")
}

/// Authentication settings.
pub struct AuthConfig {
    pub developer_auth_enabled: bool,
    pub oidc_issuer_url: Option<String>,
    pub oidc_client_id: Option<String>,
    pub oidc_client_secret: Option<String>,
    pub oidc_redirect_uri: Option<String>,
    pub oidc_audience: Option<String>,
    pub oidc_post_login_redirect_uri: String,
    pub oidc_scopes: Vec<String>,
}

/// The first missing OIDC variable when some but not all of the four are set.
pub open spec fn oidc_missing(raw: RawEnv) -> Option<Seq<char>> {
    let issuer = env_value(raw.oidc_issuer_url);
    let client = env_value(raw.oidc_client_id);
    let secret = env_value(raw.oidc_client_secret);
    let redirect = env_value(raw.oidc_redirect_uri);
    if issuer is None && client is None && secret is None && redirect is None {
        None
    } else if issuer is None {
        Some("OIDC_ISSUER_URL"@)
    } else if client is None {
        Some("OIDC_CLIENT_ID"@)
    } else if secret is None {
        Some("OIDC_CLIENT_SECRET"@)
    } else if redirect is None {
        Some("OIDC_REDIRECT_URI"@)
    } else {
        None
    }
}

/// The frontend URL that a finished login returns to by default.
pub open spec fn default_post_login_redirect_uri() -> Seq<char> {
    "http://127.0.0.1:5173/"@
}

/// Whether `a` holds the settings read from `raw`.
pub open spec fn auth_config_from(a: AuthConfig, raw: RawEnv, developer_auth_enabled: bool) -> bool {
    &&& a.developer_auth_enabled == developer_auth_enabled
    &&& a.oidc_issuer_url.deep_view() == env_value(raw.oidc_issuer_url)
    &&& a.oidc_client_id.deep_view() == env_value(raw.oidc_client_id)
    &&& a.oidc_client_secret.deep_view() == env_value(raw.oidc_client_secret)
    &&& a.oidc_redirect_uri.deep_view() == env_value(raw.oidc_redirect_uri)
    &&& a.oidc_audience.deep_view() == env_value(raw.oidc_audience)
    &&& a.oidc_post_login_redirect_uri@ == or_default(
        env_value(raw.oidc_post_login_redirect_uri),
        default_post_login_redirect_uri(),
    )
    &&& string_views(a.oidc_scopes@) == spec_scopes(
        or_default(env_value(raw.oidc_scopes), "openid profile"@),
    )
}

impl AuthConfig {
    /// Reads the authentication settings. The four OIDC client variables are set together
    /// or not at all.
    pub fn from_raw(raw: &RawEnv, developer_auth_enabled: bool) -> (r: Result<Self, ConfigError>)
        ensures
            match oidc_missing(*raw) {
                Some(name) => r matches Err(e) && failure(e) == (name, true),
                None => r matches Ok(a) && auth_config_from(a, *raw, developer_auth_enabled),
            },
    {
        let issuer = optional_value(raw.oidc_issuer_url.as_ref());
        let client = optional_value(raw.oidc_client_id.as_ref());
        let secret = optional_value(raw.oidc_client_secret.as_ref());
        let redirect = optional_value(raw.oidc_redirect_uri.as_ref());
        let (oidc_issuer_url, oidc_client_id, oidc_client_secret, oidc_redirect_uri) = if issuer.is_none()
            && client.is_none() && secret.is_none() && redirect.is_none() {
            (None, None, None, None)
        } else {
            (
                Some(required_value(issuer, "OIDC_ISSUER_URL")?),
                Some(required_value(client, "OIDC_CLIENT_ID")?),
                Some(required_value(secret, "OIDC_CLIENT_SECRET")?),
                Some(required_value(redirect, "OIDC_REDIRECT_URI")?),
            )
        };
        let scopes = match optional_value(raw.oidc_scopes.as_ref()) {
            Some(s) => s,
            None => "openid profile".to_owned(),
        };
        let post_login = match optional_value(raw.oidc_post_login_redirect_uri.as_ref()) {
            Some(s) => s,
            None => "http://127.0.0.1:5173/".to_owned(),
        };
        Ok(AuthConfig {
            developer_auth_enabled,
            oidc_issuer_url,
            oidc_client_id,
            oidc_client_secret,
            oidc_redirect_uri,
            oidc_audience: optional_value(raw.oidc_audience.as_ref()),
            oidc_post_login_redirect_uri: post_login,
            oidc_scopes: parse_scopes(scopes.as_str()),
        })
    }
}

/// Tracing and OTLP exporter settings.
pub struct TelemetryConfig {
    enabled: bool,
    service_name: String,
    log_filter: Option<String>,
    otlp_endpoint: String,
    otlp_timeout_ms: u64,
    otlp_compression: Option<String>,
    otlp_headers: Vec<(String, String)>,
}

/// The headers that the environment configures: the traces-specific list, else the generic one.
pub open spec fn env_headers(raw: RawEnv) -> Map<Seq<char>, Seq<char>> {
    match either(
        env_value(raw.otel_exporter_otlp_traces_headers),
        env_value(raw.otel_exporter_otlp_headers),
    ) {
        Some(h) => spec_headers(h),
        None => Map::empty(),
    }
}

impl TelemetryConfig {
    pub closed spec fn spec_enabled(&self) -> bool {
        self.enabled
    }

    pub closed spec fn spec_service_name(&self) -> Seq<char> {
        self.service_name@
    }

    pub closed spec fn spec_log_filter(&self) -> Option<Seq<char>> {
        self.log_filter.deep_view()
    }

    pub closed spec fn spec_otlp_endpoint(&self) -> Seq<char> {
        self.otlp_endpoint@
    }

    pub closed spec fn spec_otlp_timeout_ms(&self) -> u64 {
        self.otlp_timeout_ms
    }

    pub closed spec fn spec_otlp_compression(&self) -> Option<Seq<char>> {
        self.otlp_compression.deep_view()
    }

    pub closed spec fn spec_otlp_headers(&self) -> Seq<(String, String)> {
        self.otlp_headers@
    }

    /// Whether `self` holds the settings read from `raw`.
    pub open spec fn read_from(&self, raw: RawEnv) -> bool {
        &&& self.spec_enabled() == match raw.otel_enabled {
            Some(v) => flag_word(v@),
            None => false,
        }
        &&& self.spec_service_name() == or_default(
            env_value(raw.otel_service_name),
            "catlas-api-rs"@,
        )
        &&& self.spec_log_filter() == env_value(raw.rust_log)
        &&& self.spec_otlp_endpoint() == spec_resolve_otlp_endpoint(
            env_value(raw.otel_exporter_otlp_traces_endpoint),
            env_value(raw.otel_exporter_otlp_endpoint),
        )
        &&& self.spec_otlp_timeout_ms() == spec_resolve_otlp_timeout(
            env_value(raw.otel_exporter_otlp_traces_timeout),
            env_value(raw.otel_exporter_otlp_timeout),
        )
        &&& self.spec_otlp_compression() == either(
            env_value(raw.otel_exporter_otlp_traces_compression),
            env_value(raw.otel_exporter_otlp_compression),
        )
        &&& lists_map(self.spec_otlp_headers(), env_headers(raw))
    }

    /// Reads the telemetry settings; traces-specific variables win over generic ones.
    pub fn from_raw(raw: &RawEnv) -> (r: Self)
        ensures
            r.read_from(*raw),
    {
        let generic_endpoint = optional_value(raw.otel_exporter_otlp_endpoint.as_ref());
        let trace_endpoint = optional_value(raw.otel_exporter_otlp_traces_endpoint.as_ref());
        let otlp_endpoint = resolve_otlp_endpoint(
            match &trace_endpoint {
                Some(t) => Some(t.as_str()),
                None => None,
            },
            match &generic_endpoint {
                Some(g) => Some(g.as_str()),
                None => None,
            },
        );
        let trace_timeout = optional_value(raw.otel_exporter_otlp_traces_timeout.as_ref());
        let generic_timeout = optional_value(raw.otel_exporter_otlp_timeout.as_ref());
        let otlp_timeout_ms = resolve_otlp_timeout(
            match &trace_timeout {
                Some(t) => Some(t.as_str()),
                None => None,
            },
            match &generic_timeout {
                Some(g) => Some(g.as_str()),
                None => None,
            },
        );
        let otlp_compression = match optional_value(
            raw.otel_exporter_otlp_traces_compression.as_ref(),
        ) {
            Some(c) => Some(c),
            None => optional_value(raw.otel_exporter_otlp_compression.as_ref()),
        };
        let header_source = match optional_value(raw.otel_exporter_otlp_traces_headers.as_ref()) {
            Some(h) => Some(h),
            None => optional_value(raw.otel_exporter_otlp_headers.as_ref()),
        };
        let otlp_headers = match header_source {
            Some(h) => parse_headers(h.as_str()),
            None => Vec::new(),
        };
        let service_name = match optional_value(raw.otel_service_name.as_ref()) {
            Some(n) => n,
            None => "catlas-api-rs".to_owned(),
        };
        TelemetryConfig {
            enabled: env_flag(raw.otel_enabled.as_ref()),
            service_name,
            log_filter: optional_value(raw.rust_log.as_ref()),
            otlp_endpoint,
            otlp_timeout_ms,
            otlp_compression,
            otlp_headers,
        }
    }

    pub fn enabled(&self) -> (r: bool)
        ensures
            r == self.spec_enabled(),
    {
        self.enabled
    }

    pub fn service_name(&self) -> (r: &str)
        ensures
            r@ == self.spec_service_name(),
    {
        self.service_name.as_str()
    }

    pub fn log_filter(&self) -> (r: Option<&str>)
        ensures
            str_view(r) == self.spec_log_filter(),
    {
        match &self.log_filter {
            Some(f) => Some(f.as_str()),
            None => None,
        }
    }

    pub fn otlp_endpoint(&self) -> (r: &str)
        ensures
            r@ == self.spec_otlp_endpoint(),
    {
        self.otlp_endpoint.as_str()
    }

    /// The exporter timeout in milliseconds.
    pub fn otlp_timeout(&self) -> (r: u64)
        ensures
            r == self.spec_otlp_timeout_ms(),
    {
        self.otlp_timeout_ms
    }

    pub fn otlp_compression(&self) -> (r: Option<&str>)
        ensures
            str_view(r) == self.spec_otlp_compression(),
    {
        match &self.otlp_compression {
            Some(c) => Some(c.as_str()),
            None => None,
        }
    }

    /// The exporter headers, each name once.
    pub fn otlp_headers(&self) -> (r: &Vec<(String, String)>)
        ensures
            r@ == self.spec_otlp_headers(),
    {
        &self.otlp_headers
    }

    /// Why traces cannot be exported with this configuration, if they cannot: compressed OTLP
    /// over HTTP is not supported.
    pub fn exporter_problem(&self) -> (r: Option<&'static str>)
        ensures
            r is Some <==> self.spec_enabled() && self.spec_otlp_compression() is Some,
            r is Some ==> r->0@ == "OTLP HTTP compression is not supported by opentelemetry-otlp 0.30"@,
    {
        if self.enabled && self.otlp_compression.is_some() {
            Some("OTLP HTTP compression is not supported by opentelemetry-otlp 0.30")
        } else {
            None
        }
    }
}

/// The service configuration.
pub struct Config {
    database: DatabaseConfig,
    host: String,
    port: String,
    cookie_secure: bool,
    auth: AuthConfig,
    telemetry: TelemetryConfig,
}

/// Whether a cookie flag value equals `true` ignoring ASCII case.
pub open spec fn is_true_word(v: Option<String>) -> bool {
    match v {
        Some(s) => lower(s@) == "true"@,
        None => false,
    }
}

/// The failure `Config::from_env` reports for `raw`, if any: `DATABASE_URL`, then
/// `DEV_AUTH_ENABLED`, then the OIDC variables, in that order.
pub open spec fn config_failure(raw: RawEnv) -> Option<(Seq<char>, bool)> {
    if env_value(raw.database_url) is None {
        Some(("DATABASE_URL"@, true))
    } else if raw.dev_auth_enabled is Some && bool_word(raw.dev_auth_enabled->0@) is None {
        Some(("DEV_AUTH_ENABLED"@, false))
    } else {
        match oidc_missing(raw) {
            Some(name) => Some((name, true)),
            None => None,
        }
    }
}

/// Whether development sign-in is enabled: the `DEV_AUTH_ENABLED` value when set, else the
/// build's default.
pub open spec fn developer_auth(raw: RawEnv, default_enabled: bool) -> bool {
    match raw.dev_auth_enabled {
        Some(v) => match bool_word(v@) {
            Some(b) => b,
            None => default_enabled,
        },
        None => default_enabled,
    }
}

impl Config {
    pub closed spec fn spec_database(&self) -> DatabaseConfig {
        self.database
    }

    pub closed spec fn spec_host(&self) -> Seq<char> {
        self.host@
    }

    pub closed spec fn spec_port(&self) -> Seq<char> {
        self.port@
    }

    pub closed spec fn spec_cookie_secure(&self) -> bool {
        self.cookie_secure
    }

    pub closed spec fn spec_auth(&self) -> AuthConfig {
        self.auth
    }

    pub closed spec fn spec_telemetry(&self) -> TelemetryConfig {
        self.telemetry
    }

    /// Reads the whole configuration from the environment values. `default_dev_auth` is
    /// whether development sign-in is on when `DEV_AUTH_ENABLED` is unset (debug builds).
    pub fn from_env(env: &RawEnv, default_dev_auth: bool) -> (r: Result<Self, ConfigError>)
        ensures
            match config_failure(*env) {
                Some(f) => r matches Err(e) && failure(e) == f,
                None => r matches Ok(c) && {
                    &&& c.spec_database().spec_url() == env_value(env.database_url)->0
                    &&& c.spec_host() == or_default(env_value(env.host), "127.0.0.1"@)
                    &&& c.spec_port() == or_default(env_value(env.port), "3000"@)
                    &&& c.spec_cookie_secure() == is_true_word(env.cookie_secure)
                    &&& auth_config_from(
                        c.spec_auth(),
                        *env,
                        developer_auth(*env, default_dev_auth),
                    )
                    &&& c.spec_telemetry().read_from(*env)
                },
            },
    {
        let database = DatabaseConfig::from_raw(env)?;
        let developer_auth_enabled = match parse_bool(
            env.dev_auth_enabled.as_ref(),
            "DEV_AUTH_ENABLED",
        )? {
            Some(b) => b,
            None => default_dev_auth,
        };
        let auth = AuthConfig::from_raw(env, developer_auth_enabled)?;
        let host = match optional_value(env.host.as_ref()) {
            Some(h) => h,
            None => "127.0.0.1".to_owned(),
        };
        let port = match optional_value(env.port.as_ref()) {
            Some(p) => p,
            None => "3000".to_owned(),
        };
        let cookie_secure = match &env.cookie_secure {
            Some(v) => chars_eq(&lower_chars(&to_chars(v.as_str())), "true"),
            None => false,
        };
        Ok(Config {
            database,
            host,
            port,
            cookie_secure,
            auth,
            telemetry: TelemetryConfig::from_raw(env),
        })
    }

    pub fn database_url(&self) -> (r: &str)
        ensures
            r@ == self.spec_database().spec_url(),
    {
        self.database.url()
    }

    pub fn host(&self) -> (r: &str)
        ensures
            r@ == self.spec_host(),
    {
        self.host.as_str()
    }

    pub fn port(&self) -> (r: &str)
        ensures
            r@ == self.spec_port(),
    {
        self.port.as_str()
    }

    pub fn cookie_secure(&self) -> (r: bool)
        ensures
            r == self.spec_cookie_secure(),
    {
        self.cookie_secure
    }

    pub fn auth(&self) -> (r: &AuthConfig)
        ensures
            *r == self.spec_auth(),
    {
        &self.auth
    }

    pub fn telemetry(&self) -> (r: &TelemetryConfig)
        ensures
            *r == self.spec_telemetry(),
    {
        &self.telemetry
    }
}

} // verus!
