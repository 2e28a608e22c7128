//! Worlds: slug and name rules.

use vstd::prelude::*;

use crate::text::{split, split_chars, split_from, to_chars, trim, trimmed, views};

verus! {

/// A character a slug part may hold: a lowercase ASCII letter or a digit.
pub open spec fn slug_char(c: char) -> bool {
    ('a' <= c && c <= 'z') || ('0' <= c && c <= '9')
}

/// A slug part: not empty, made of lowercase ASCII letters and digits.
pub open spec fn slug_part(p: Seq<char>) -> bool {
    p.len() > 0 && forall|j: int| 0 <= j < p.len() ==> slug_char(#[trigger] p[j])
}

/// A world slug: 1 to 64 characters, starting and ending with a letter or digit, whose parts
/// between hyphens are non-empty runs of lowercase letters and digits.
pub open spec fn spec_valid_slug(s: Seq<char>) -> bool {
    &&& 1 <= s.len() <= 64
    &&& slug_char(s[0])
    &&& slug_char(s.last())
    &&& forall|i: int| 0 <= i < split(s, '-').len() ==> slug_part(#[trigger] split(s, '-')[i])
}

fn is_slug_char(c: char) -> (r: bool)
    ensures
        r == slug_char(c),
{
    ('a' <= c && c <= 'z') || ('0' <= c && c <= '9')
}

fn is_slug_part(p: &Vec<char>) -> (r: bool)
    ensures
        r == slug_part(p@),
{
    if p.len() == 0 {
        return false;
    }
    let mut j: usize = 0;
    while j < p.len()
        invariant
            j <= p@.len(),
            forall|k: int| 0 <= k < j ==> slug_char(#[trigger] p@[k]),
        decreases p@.len() - j,
    {
        if !is_slug_char(p[j]) {
            return false;
        }
        j += 1;
    }
    true
}

/// Whether `value` may name a world in URLs.
pub fn valid_slug(value: &str) -> (r: bool)
    ensures
        r == spec_valid_slug(value@),
{
    let chars = to_chars(value);
    let n = chars.len();
    if n == 0 || n > 64 || !is_slug_char(chars[0]) || !is_slug_char(chars[n - 1]) {
        return false;
    }
    let parts = split_chars(&chars, '-');
    let mut i: usize = 0;
    while i < parts.len()
        invariant
            i <= parts@.len(),
            chars@ == value@,
            views(parts@) == split(chars@, '-'),
            forall|k: int| 0 <= k < i ==> slug_part(#[trigger] split(chars@, '-')[k]),
        decreases parts@.len() - i,
    {
        assert(split(chars@, '-')[i as int] == parts@[i as int]@);
        if !is_slug_part(&parts[i]) {
            return false;
        }
        i += 1;
    }
    true
}

/// Every piece is a slug part.
spec fn parts_ok(p: Seq<Seq<char>>) -> bool {
    forall|i: int| 0 <= i < p.len() ==> slug_part(#[trigger] p[i])
}

/// Every character is a letter or digit.
spec fn chars_ok(c: Seq<char>) -> bool {
    forall|j: int| 0 <= j < c.len() ==> slug_char(#[trigger] c[j])
}

/// The rest `s` of a slug, read after a part that has (`started`) or has not yet begun: letters,
/// digits and single hyphens, every part non-empty.
spec fn rest_ok(started: bool, s: Seq<char>) -> bool {
    &&& forall|i: int| 0 <= i < s.len() ==> slug_char(#[trigger] s[i]) || s[i] == '-'
    &&& s.len() == 0 ==> started
    &&& s.len() > 0 ==> (s[0] == '-' ==> started) && s.last() != '-'
    &&& forall|i: int| 0 <= i < s.len() - 1 ==> !(#[trigger] s[i] == '-' && s[i + 1] == '-')
}

proof fn lemma_split_parts(s: Seq<char>, cur: Seq<char>)
    ensures
        parts_ok(split_from(s, '-', cur)) <==> chars_ok(cur) && rest_ok(cur.len() > 0, s),
    decreases s.len(),
{
    if s.len() == 0 {
        assert(split_from(s, '-', cur) == seq![cur]);
        if chars_ok(cur) && cur.len() > 0 {
            assert(slug_part(seq![cur][0]));
        }
        if parts_ok(seq![cur]) {
            assert(slug_part(seq![cur][0]));
        }
    } else {
        let t = s.drop_first();
        assert forall|i: int| 0 <= i < t.len() implies #[trigger] t[i] == s[i + 1] by {}
        if s[0] == '-' {
            lemma_split_parts(t, Seq::empty());
            let rest = split_from(t, '-', Seq::empty());
            let p = seq![cur] + rest;
            assert(split_from(s, '-', cur) == p);
            assert(p[0] == cur);
            assert forall|i: int| 0 <= i < rest.len() implies #[trigger] p[i + 1] == rest[i] by {}
            if parts_ok(p) {
                assert(slug_part(p[0]));
                assert forall|i: int| 0 <= i < rest.len() implies slug_part(#[trigger] rest[i]) by {
                    assert(slug_part(p[i + 1]));
                }
                assert(parts_ok(rest));
                assert(rest_ok(cur.len() > 0, s)) by {
                    assert forall|i: int| 0 <= i < s.len() implies slug_char(#[trigger] s[i]) || s[i] == '-' by {
                        if i > 0 {
                            assert(s[i] == t[i - 1]);
                        }
                    }
                    if t.len() > 0 {
                        assert(s.last() == t.last());
                    }
                    assert forall|i: int| 0 <= i < s.len() - 1 implies !(#[trigger] s[i] == '-' && s[i + 1] == '-') by {
                        if i > 0 {
                            assert(s[i] == t[i - 1] && s[i + 1] == t[i]);
                        } else {
                            assert(s[1] == t[0]);
                        }
                    }
                }
            }
            if chars_ok(cur) && rest_ok(cur.len() > 0, s) {
                assert(t.len() > 0);
                assert(s.last() == t.last());
                assert(rest_ok(false, t)) by {
                    assert forall|i: int| 0 <= i < t.len() implies slug_char(#[trigger] t[i]) || t[i] == '-' by {
                        assert(t[i] == s[i + 1]);
                    }
                    assert(s[1] == t[0]);
                    assert(!(s[0] == '-' && s[1] == '-'));
                    assert forall|i: int| 0 <= i < t.len() - 1 implies !(#[trigger] t[i] == '-' && t[i + 1] == '-') by {
                        assert(t[i] == s[i + 1] && t[i + 1] == s[i + 2]);
                    }
                }
                assert forall|i: int| 0 <= i < p.len() implies slug_part(#[trigger] p[i]) by {
                    if i > 0 {
                        assert(p[i] == rest[i - 1]);
                    }
                }
            }
        } else {
            let c2 = cur.push(s[0]);
            lemma_split_parts(t, c2);
            assert(split_from(s, '-', cur) == split_from(t, '-', c2));
            assert forall|j: int| 0 <= j < cur.len() implies #[trigger] c2[j] == cur[j] by {}
            assert(c2[cur.len() as int] == s[0]);
            if chars_ok(c2) && rest_ok(true, t) {
                assert(chars_ok(cur)) by {
                    assert forall|j: int| 0 <= j < cur.len() implies slug_char(#[trigger] cur[j]) by {
                        assert(slug_char(c2[j]));
                    }
                }
                assert(slug_char(c2[cur.len() as int]));
                assert(rest_ok(cur.len() > 0, s)) by {
                    assert forall|i: int| 0 <= i < s.len() implies slug_char(#[trigger] s[i]) || s[i] == '-' by {
                        if i > 0 {
                            assert(s[i] == t[i - 1]);
                        }
                    }
                    if t.len() > 0 {
                        assert(s.last() == t.last());
                    }
                    assert forall|i: int| 0 <= i < s.len() - 1 implies !(#[trigger] s[i] == '-' && s[i + 1] == '-') by {
                        if i > 0 {
                            assert(s[i] == t[i - 1] && s[i + 1] == t[i]);
                        }
                    }
                }
            }
            if chars_ok(cur) && rest_ok(cur.len() > 0, s) {
                assert(slug_char(s[0]));
                assert(chars_ok(c2)) by {
                    assert forall|j: int| 0 <= j < c2.len() implies slug_char(#[trigger] c2[j]) by {
                        if j < cur.len() {
                            assert(c2[j] == cur[j]);
                        }
                    }
                }
                assert(rest_ok(true, t)) by {
                    assert forall|i: int| 0 <= i < t.len() implies slug_char(#[trigger] t[i]) || t[i] == '-' by {
                        assert(t[i] == s[i + 1]);
                    }
                    if t.len() > 0 {
                        assert(s.last() == t.last());
                    }
                    assert forall|i: int| 0 <= i < t.len() - 1 implies !(#[trigger] t[i] == '-' && t[i + 1] == '-') by {
                        assert(t[i] == s[i + 1] && t[i + 1] == s[i + 2]);
                    }
                }
            }
        }
    }
}

/// A slug is valid exactly when it has 1 to 64 characters, each a lowercase ASCII letter, a
/// digit or a hyphen, neither first nor last a hyphen, and no two hyphens in a row: its
/// first character may be a letter or a digit.
pub proof fn law_slug_characters(s: Seq<char>)
    ensures
        spec_valid_slug(s) <==> {
            &&& 1 <= s.len() <= 64
            &&& forall|i: int|
                0 <= i < s.len() ==> ('a' <= #[trigger] s[i] && s[i] <= 'z') || ('0' <= s[i] && s[i]
                    <= '9') || s[i] == '-'
            &&& s[0] != '-'
            &&& s[s.len() - 1] != '-'
            &&& forall|i: int| 0 <= i < s.len() - 1 ==> !(#[trigger] s[i] == '-' && s[i + 1] == '-')
        },
{
    lemma_split_parts(s, Seq::empty());
    assert(chars_ok(Seq::<char>::empty()));
    assert(split(s, '-') == split_from(s, '-', Seq::<char>::empty()));
    if s.len() > 0 {
        assert(s.last() == s[s.len() - 1]);
    }
}

/// A world name: not blank once trimmed, and at most 128 characters.
pub open spec fn spec_valid_world_name(name: Seq<char>) -> bool {
    1 <= trim(name).len() <= 128
}

/// The trimmed name of a new world, or `None` when the name or slug is refused.
pub fn world_name(slug: &str, name: &str) -> (r: Option<String>)
    ensures
        match r {
            Some(n) => spec_valid_slug(slug@) && spec_valid_world_name(name@) && n@ == trim(name@),
            None => !(spec_valid_slug(slug@) && spec_valid_world_name(name@)),
        },
{
    let trimmed_name = trimmed(name);
    let count = to_chars(trimmed_name.as_str()).len();
    if !valid_slug(slug) || count == 0 || count > 128 {
        None
    } else {
        Some(trimmed_name)
    }
}

} // verus!
