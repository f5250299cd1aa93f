//! Finding the counterpart of a benchmark record in the catalog.
//!
//! Provider names are compared in a normal form: ASCII letters in lower case,
//! everything but ASCII letters and digits dropped, and the organisational
//! endings `inc`, `llc`, `ltd`, `corp` and `labs` taken off the end for as long
//! as something is left in front of them.
//!
//! Model names are compared exactly first, and only if that finds nothing
//! without their version markers. A version marker is one of these endings, as
//! long as something is left in front of it: `-latest`; a hyphen and three or
//! more digits (a date stamp or a patch number); a dashed date, `-dddd-dd-dd`.
//! Markers are taken off the end for as long as there is one.

use vstd::prelude::*;
use crate::sources::models_dev::{ModelsDevModel, ModelsDevResponse};
use crate::text::{chars_of, lower_char, matches_at, string_of_range, to_lower_char, vec_equal};

verus! {

/// Whether `s` ends with `suffix`.
pub open spec fn ends_with(s: Seq<char>, suffix: Seq<char>) -> bool {
    s.len() >= suffix.len() && s.subrange(s.len() - suffix.len(), s.len() as int) == suffix
}

/// Lower-case ASCII letters and digits: what a normal form is made of.
pub open spec fn is_plain(c: char) -> bool {
    ('a' <= c <= 'z') || ('0' <= c <= '9')
}

/// The first `n` characters of `s` in lower case, the letters and digits among them only.
pub open spec fn squeezed_upto(s: Seq<char>, n: nat) -> Seq<char>
    decreases n,
{
    if n == 0 {
        Seq::empty()
    } else {
        let c = lower_char(s[n - 1]);
        let front = squeezed_upto(s, (n - 1) as nat);
        if is_plain(c) {
            front.push(c)
        } else {
            front
        }
    }
}

/// The length of the organisational ending of `s`, or 0 where it has none or
/// nothing stands in front of it.
pub open spec fn ending_len(s: Seq<char>) -> nat {
    if ends_with(s, "inc"@) && s.len() > "inc"@.len() {
        "inc"@.len()
    } else if ends_with(s, "llc"@) && s.len() > "llc"@.len() {
        "llc"@.len()
    } else if ends_with(s, "ltd"@) && s.len() > "ltd"@.len() {
        "ltd"@.len()
    } else if ends_with(s, "corp"@) && s.len() > "corp"@.len() {
        "corp"@.len()
    } else if ends_with(s, "labs"@) && s.len() > "labs"@.len() {
        "labs"@.len()
    } else {
        0
    }
}

/// `s` without its organisational endings.
pub open spec fn without_endings(s: Seq<char>) -> Seq<char>
    decreases s.len(),
{
    let n = ending_len(s);
    if 0 < n <= s.len() {
        without_endings(s.subrange(0, s.len() - n))
    } else {
        s
    }
}

/// The normal form of a provider name.
pub open spec fn normalized(s: Seq<char>) -> Seq<char> {
    without_endings(squeezed_upto(s, s.len()))
}

/// Whether `c` is a decimal digit.
pub open spec fn is_digit(c: char) -> bool {
    '0' <= c <= '9'
}

/// How many digits `s` ends with.
pub open spec fn trailing_digits(s: Seq<char>) -> nat
    decreases s.len(),
{
    if s.len() > 0 && is_digit(s.last()) {
        1 + trailing_digits(s.drop_last())
    } else {
        0
    }
}

/// Whether `s` ends with a dashed date, `-dddd-dd-dd`, behind something else.
pub open spec fn ends_with_dashed_date(s: Seq<char>) -> bool {
    let n = s.len() as int;
    &&& n > 11
    &&& s[n - 11] == '-'
    &&& is_digit(s[n - 10])
    &&& is_digit(s[n - 9])
    &&& is_digit(s[n - 8])
    &&& is_digit(s[n - 7])
    &&& s[n - 6] == '-'
    &&& is_digit(s[n - 5])
    &&& is_digit(s[n - 4])
    &&& s[n - 3] == '-'
    &&& is_digit(s[n - 2])
    &&& is_digit(s[n - 1])
}

/// The length of the version marker that `s` ends with, or 0 where it ends with none.
pub open spec fn marker_len(s: Seq<char>) -> nat {
    let d = trailing_digits(s);
    if ends_with(s, "-latest"@) && s.len() > "-latest"@.len() {
        "-latest"@.len()
    } else if d >= 3 && s.len() > d + 1 && s[s.len() - d - 1] == '-' {
        d + 1
    } else if ends_with_dashed_date(s) {
        11
    } else {
        0
    }
}

/// `s` without its version markers.
pub open spec fn stripped(s: Seq<char>) -> Seq<char>
    decreases s.len(),
{
    let n = marker_len(s);
    if 0 < n <= s.len() {
        stripped(s.subrange(0, s.len() - n))
    } else {
        s
    }
}

/// Taking the organisational endings off twice changes nothing more.
pub proof fn lemma_without_endings_is_final(s: Seq<char>)
    ensures
        without_endings(without_endings(s)) == without_endings(s),
    decreases s.len(),
{
    let n = ending_len(s);
    if 0 < n <= s.len() {
        lemma_without_endings_is_final(s.subrange(0, s.len() - n));
    }
}

/// What is squeezed holds lower-case letters and digits only.
pub proof fn lemma_squeezed_is_plain(s: Seq<char>, n: nat)
    requires
        n <= s.len(),
    ensures
        forall|i: int| 0 <= i < squeezed_upto(s, n).len() ==> is_plain(#[trigger] squeezed_upto(s, n)[i]),
    decreases n,
{
    if n > 0 {
        lemma_squeezed_is_plain(s, (n - 1) as nat);
        let front = squeezed_upto(s, (n - 1) as nat);
        let all = squeezed_upto(s, n);
        let c = lower_char(s[n - 1]);
        assert forall|i: int| 0 <= i < all.len() implies is_plain(#[trigger] all[i]) by {
            if i < front.len() {
                assert(all[i] == front[i]);
            } else {
                assert(all[i] == c);
            }
        }
    }
}

/// Squeezing a text of lower-case letters and digits changes nothing.
pub proof fn lemma_squeeze_keeps_plain(s: Seq<char>, n: nat)
    requires
        n <= s.len(),
        forall|i: int| 0 <= i < s.len() ==> is_plain(#[trigger] s[i]),
    ensures
        squeezed_upto(s, n) == s.take(n as int),
    decreases n,
{
    if n > 0 {
        lemma_squeeze_keeps_plain(s, (n - 1) as nat);
        assert(is_plain(s[n - 1]));
        assert(lower_char(s[n - 1]) == s[n - 1]);
        assert(s.take(n as int) == s.take(n - 1).push(s[n - 1]));
    } else {
        assert(s.take(0) == Seq::<char>::empty());
    }
}

/// What is left without organisational endings is the beginning of the text.
pub proof fn lemma_without_endings_is_prefix(s: Seq<char>)
    ensures
        without_endings(s).len() <= s.len(),
        without_endings(s) == s.subrange(0, without_endings(s).len() as int),
    decreases s.len(),
{
    let n = ending_len(s);
    if 0 < n <= s.len() {
        let front = s.subrange(0, s.len() - n);
        lemma_without_endings_is_prefix(front);
        assert(front.subrange(0, without_endings(front).len() as int) == s.subrange(
            0,
            without_endings(front).len() as int,
        ));
    } else {
        assert(s.subrange(0, s.len() as int) == s);
    }
}

/// A normal form is its own normal form.
pub proof fn lemma_normalized_is_final(s: Seq<char>)
    ensures
        normalized(normalized(s)) == normalized(s),
{
    let squeezed = squeezed_upto(s, s.len());
    let form = without_endings(squeezed);
    lemma_squeezed_is_plain(s, s.len());
    lemma_without_endings_is_prefix(squeezed);
    assert forall|i: int| 0 <= i < form.len() implies is_plain(#[trigger] form[i]) by {
        assert(form[i] == squeezed[i]);
    }
    lemma_squeeze_keeps_plain(form, form.len());
    assert(form.take(form.len() as int) == form);
    lemma_without_endings_is_final(squeezed);
}

/// Taking the version markers off twice changes nothing more.
pub proof fn lemma_stripped_is_final(s: Seq<char>)
    ensures
        stripped(stripped(s)) == stripped(s),
    decreases s.len(),
{
    let n = marker_len(s);
    if 0 < n <= s.len() {
        lemma_stripped_is_final(s.subrange(0, s.len() - n));
    }
}

/// What is left without version markers is the beginning of the name.
pub proof fn lemma_stripped_is_prefix(s: Seq<char>)
    ensures
        stripped(s).len() <= s.len(),
        stripped(s) == s.subrange(0, stripped(s).len() as int),
    decreases s.len(),
{
    let n = marker_len(s);
    if 0 < n <= s.len() {
        let front = s.subrange(0, s.len() - n);
        lemma_stripped_is_prefix(front);
        assert(front.subrange(0, stripped(front).len() as int) == s.subrange(
            0,
            stripped(front).len() as int,
        ));
    } else {
        assert(s.subrange(0, s.len() as int) == s);
    }
}

/// Decides whether the first `len` characters of `v` end with `suffix`.
fn prefix_ends_with(v: &Vec<char>, len: usize, suffix: &str) -> (r: bool)
    requires
        len <= v.len(),
    ensures
        r == ends_with(v@.take(len as int), suffix@),
{
    let tail = chars_of(suffix);
    if tail.len() > len {
        return false;
    }
    let r = matches_at(v, &tail, len - tail.len());
    proof {
        let head = v@.take(len as int);
        assert(head.subrange(head.len() - tail@.len(), head.len() as int) == v@.subrange(
            len - tail@.len(),
            len as int,
        ));
    }
    r
}

/// Finds the length of the organisational ending of the first `len` characters of `v`.
fn find_ending(v: &Vec<char>, len: usize) -> (n: usize)
    requires
        len <= v.len(),
    ensures
        n == ending_len(v@.take(len as int)),
        n < len || n == 0,
{
    if prefix_ends_with(v, len, "inc") && len > "inc".unicode_len() {
        "inc".unicode_len()
    } else if prefix_ends_with(v, len, "llc") && len > "llc".unicode_len() {
        "llc".unicode_len()
    } else if prefix_ends_with(v, len, "ltd") && len > "ltd".unicode_len() {
        "ltd".unicode_len()
    } else if prefix_ends_with(v, len, "corp") && len > "corp".unicode_len() {
        "corp".unicode_len()
    } else if prefix_ends_with(v, len, "labs") && len > "labs".unicode_len() {
        "labs".unicode_len()
    } else {
        0
    }
}

/// Computes the normal form of a provider name, as characters.
fn normal_form(s: &str) -> (r: Vec<char>)
    ensures
        r@ == normalized(s@),
{
    let chars = chars_of(s);
    let mut kept: Vec<char> = Vec::new();
    let mut i: usize = 0;
    while i < chars.len()
        invariant
            i <= chars.len(),
            kept@ == squeezed_upto(chars@, i as nat),
        decreases chars.len() - i,
    {
        let c = to_lower_char(chars[i]);
        if ('a' <= c && c <= 'z') || ('0' <= c && c <= '9') {
            kept.push(c);
        }
        i += 1;
    }
    let mut len: usize = kept.len();
    assert(kept@.take(len as int) == kept@);
    loop
        invariant
            len <= kept.len(),
            without_endings(kept@) == without_endings(kept@.take(len as int)),
        ensures
            len <= kept.len(),
            without_endings(kept@) == kept@.take(len as int),
        decreases len,
    {
        let n = find_ending(&kept, len);
        if n == 0 {
            break ;
        }
        assert(kept@.take(len as int).subrange(0, len - n) == kept@.take(len - n));
        len = len - n;
    }
    kept.truncate(len);
    kept
}

/// Normalizes a provider name.
pub fn normalize_provider(s: &str) -> (r: String)
    ensures
        r@ == normalized(s@),
{
    let form = normal_form(s);
    let r = string_of_range(&form, 0, form.len());
    assert(form@.subrange(0, form@.len() as int) == form@);
    r
}

/// Counts the digits that the first `len` characters of `v` end with.
fn count_trailing_digits(v: &Vec<char>, len: usize) -> (d: usize)
    requires
        len <= v.len(),
    ensures
        d == trailing_digits(v@.take(len as int)),
        d <= len,
{
    let mut d: usize = 0;
    while d < len && '0' <= v[len - d - 1] && v[len - d - 1] <= '9'
        invariant
            d <= len <= v.len(),
            trailing_digits(v@.take(len as int)) == d + trailing_digits(v@.take(len - d)),
        decreases len - d,
    {
        assert(v@.take(len - d).drop_last() == v@.take(len - d - 1));
        d += 1;
    }
    d
}

/// Decides [`is_digit`].
fn digit(c: char) -> (r: bool)
    ensures
        r == is_digit(c),
{
    '0' <= c && c <= '9'
}

/// Finds the length of the version marker of the first `len` characters of `v`.
fn find_marker(v: &Vec<char>, len: usize) -> (n: usize)
    requires
        len <= v.len(),
    ensures
        n == marker_len(v@.take(len as int)),
        n < len || n == 0,
{
    let d = count_trailing_digits(v, len);
    if prefix_ends_with(v, len, "-latest") && len > "-latest".unicode_len() {
        "-latest".unicode_len()
    } else if d >= 3 && len - d > 1 && v[len - d - 1] == '-' {
        d + 1
    } else if len > 11 && v[len - 11] == '-' && digit(v[len - 10]) && digit(v[len - 9]) && digit(
        v[len - 8],
    ) && digit(v[len - 7]) && v[len - 6] == '-' && digit(v[len - 5]) && digit(v[len - 4]) && v[len
        - 3] == '-' && digit(v[len - 2]) && digit(v[len - 1]) {
        11
    } else {
        0
    }
}

/// Computes [`stripped`], as the number of characters that are left.
fn stripped_len(v: &Vec<char>) -> (len: usize)
    ensures
        len <= v.len(),
        stripped(v@) == v@.take(len as int),
{
    let mut len: usize = v.len();
    assert(v@.take(len as int) == v@);
    loop
        invariant
            len <= v.len(),
            stripped(v@) == stripped(v@.take(len as int)),
        ensures
            len <= v.len(),
            stripped(v@) == v@.take(len as int),
        decreases len,
    {
        let n = find_marker(v, len);
        if n == 0 {
            break ;
        }
        assert(v@.take(len as int).subrange(0, len - n) == v@.take(len - n));
        len = len - n;
    }
    len
}

/// Strips the version markers off a model name.
pub fn strip_version_suffix(s: &str) -> (r: String)
    ensures
        r@ == stripped(s@),
{
    let chars = chars_of(s);
    let len = stripped_len(&chars);
    let r = string_of_range(&chars, 0, len);
    assert(chars@.subrange(0, len as int) == chars@.take(len as int));
    r
}

/// A counterpart found in a catalog: the id of its provider and the model itself,
/// both borrowed from the catalog.
pub struct MatchResult<'a> {
    pub provider_id: &'a str,
    pub model: &'a ModelsDevModel,
}

/// Whether the provider under `key` is looked into for a record whose creator has
/// the normal form `creator`: every provider where the creator is unknown, else
/// those with the same normal form.
pub open spec fn is_candidate(creator: Option<Seq<char>>, key: Seq<char>) -> bool {
    match creator {
        Some(form) => normalized(key) == form,
        None => true,
    }
}

/// The normal form of a creator, where the creator is known.
pub open spec fn creator_form(creator: Option<Seq<char>>) -> Option<Seq<char>> {
    match creator {
        Some(c) => Some(normalized(c)),
        None => None,
    }
}

/// Whether the model under `key` answers to `slug`: exactly, or, when `loose`,
/// version markers aside.
pub open spec fn answers(slug: Seq<char>, key: Seq<char>, loose: bool) -> bool {
    if loose {
        stripped(key) == stripped(slug)
    } else {
        key == slug
    }
}

/// The first model from position `from` on that answers to `slug`.
pub open spec fn first_model(keys: Seq<Seq<char>>, slug: Seq<char>, loose: bool, from: int) -> Option<
    int,
>
    decreases keys.len() - from,
{
    if from < 0 || from >= keys.len() {
        None
    } else if answers(slug, keys[from], loose) {
        Some(from)
    } else {
        first_model(keys, slug, loose, from + 1)
    }
}

/// The first hit from provider `from` on: the first candidate provider with a
/// model that answers to `slug`, and the first such model in it.
pub open spec fn first_hit(
    catalog: ModelsDevResponse,
    creator: Option<Seq<char>>,
    slug: Seq<char>,
    loose: bool,
    from: int,
) -> Option<(int, int)>
    decreases catalog.keys().len() - from,
{
    if from < 0 || from >= catalog.keys().len() {
        None
    } else {
        let found = if is_candidate(creator, catalog.keys()[from]) {
            first_model(catalog.values()[from].models.keys(), slug, loose, 0)
        } else {
            None
        };
        match found {
            Some(m) => Some((from, m)),
            None => first_hit(catalog, creator, slug, loose, from + 1),
        }
    }
}

/// The counterpart of a record in a catalog, as provider and model position:
/// the first exact hit, or without one the first hit with version markers aside.
pub open spec fn winner(catalog: ModelsDevResponse, creator: Option<Seq<char>>, slug: Seq<char>) -> Option<
    (int, int),
> {
    match first_hit(catalog, creator_form(creator), slug, false, 0) {
        Some(hit) => Some(hit),
        None => first_hit(catalog, creator_form(creator), slug, true, 0),
    }
}

/// Whether the model at position `m` of provider `p` is a hit.
pub open spec fn is_hit(
    catalog: ModelsDevResponse,
    creator: Option<Seq<char>>,
    slug: Seq<char>,
    loose: bool,
    p: int,
    m: int,
) -> bool {
    &&& 0 <= p < catalog.keys().len()
    &&& 0 <= m < catalog.values()[p].models.keys().len()
    &&& is_candidate(creator, catalog.keys()[p])
    &&& answers(slug, catalog.values()[p].models.keys()[m], loose)
}

/// `first_model` finds a model that answers, with none that answers before it;
/// it finds nothing only where no model answers.
pub proof fn lemma_first_model(keys: Seq<Seq<char>>, slug: Seq<char>, loose: bool, from: int)
    requires
        0 <= from,
    ensures
        match first_model(keys, slug, loose, from) {
            Some(m) => from <= m < keys.len() && answers(slug, keys[m], loose) && forall|j: int|
                from <= j < m ==> !answers(slug, #[trigger] keys[j], loose),
            None => forall|j: int| from <= j < keys.len() ==> !answers(slug, #[trigger] keys[j], loose),
        },
    decreases keys.len() - from,
{
    if from < keys.len() && !answers(slug, keys[from], loose) {
        lemma_first_model(keys, slug, loose, from + 1);
    }
}

/// `first_hit` finds a hit, with no hit before it in walking order; it finds
/// nothing only where there is no hit.
pub proof fn lemma_first_hit(
    catalog: ModelsDevResponse,
    creator: Option<Seq<char>>,
    slug: Seq<char>,
    loose: bool,
    from: int,
)
    requires
        0 <= from,
    ensures
        match first_hit(catalog, creator, slug, loose, from) {
            Some((p, m)) => {
                &&& from <= p
                &&& is_hit(catalog, creator, slug, loose, p, m)
                &&& forall|q: int, j: int|
                    from <= q && (q < p || (q == p && j < m)) ==> !#[trigger] is_hit(
                        catalog,
                        creator,
                        slug,
                        loose,
                        q,
                        j,
                    )
            },
            None => forall|q: int, j: int|
                from <= q ==> !#[trigger] is_hit(catalog, creator, slug, loose, q, j),
        },
    decreases catalog.keys().len() - from,
{
    if from < catalog.keys().len() {
        let keys = catalog.values()[from].models.keys();
        lemma_first_model(keys, slug, loose, 0);
        lemma_first_hit(catalog, creator, slug, loose, from + 1);
    }
}

/// The walk through a catalog, and so the counterpart found in it, depends on the
/// entries of the catalog alone, not on the order they were put in.
pub proof fn lemma_winner_ignores_insertion_order(
    first: ModelsDevResponse,
    second: ModelsDevResponse,
    creator: Option<Seq<char>>,
    slug: Seq<char>,
)
    requires
        first.wf(),
        second.wf(),
        first.entries() == second.entries(),
    ensures
        winner(first, creator, slug) == winner(second, creator, slug),
        first.keys() == second.keys(),
        first.values() == second.values(),
{
    first.lemma_walk_is_canonical(second);
    lemma_first_hit_depends_on_walk(first, second, creator_form(creator), slug, false, 0);
    lemma_first_hit_depends_on_walk(first, second, creator_form(creator), slug, true, 0);
}

/// Two catalogs that are walked alike have the same first hit.
pub proof fn lemma_first_hit_depends_on_walk(
    first: ModelsDevResponse,
    second: ModelsDevResponse,
    creator: Option<Seq<char>>,
    slug: Seq<char>,
    loose: bool,
    from: int,
)
    requires
        first.keys() == second.keys(),
        first.values() == second.values(),
    ensures
        first_hit(first, creator, slug, loose, from) == first_hit(
            second,
            creator,
            slug,
            loose,
            from,
        ),
    decreases first.keys().len() - from,
{
    if 0 <= from < first.keys().len() {
        lemma_first_hit_depends_on_walk(first, second, creator, slug, loose, from + 1);
    }
}

/// Computes [`first_hit`] from the first provider on.
fn scan(
    catalog: &ModelsDevResponse,
    creator: &Option<Vec<char>>,
    slug: &Vec<char>,
    loose: bool,
) -> (r: Option<(usize, usize)>)
    ensures
        match (r, first_hit(*catalog, creator_view(*creator), slug@, loose, 0)) {
            (Some(hit), Some(first)) => hit.0 == first.0 && hit.1 == first.1
                && hit.0 < catalog.keys().len() && hit.1 < catalog.values()[first.0].models.keys().len()
                && catalog.values()[first.0].models.keys().len()
                == catalog.values()[first.0].models.values().len(),
            (None, None) => true,
            _ => false,
        },
        catalog.keys().len() == catalog.values().len(),
{
    let wanted_len = stripped_len(slug);
    let providers = catalog.len();
    let mut p: usize = 0;
    while p < providers
        invariant
            p <= providers,
            providers == catalog.keys().len(),
            providers == catalog.values().len(),
            wanted_len <= slug.len(),
            stripped(slug@) == slug@.take(wanted_len as int),
            first_hit(*catalog, creator_view(*creator), slug@, loose, 0) == first_hit(
                *catalog,
                creator_view(*creator),
                slug@,
                loose,
                p as int,
            ),
        decreases providers - p,
    {
        let candidate = match creator {
            Some(c) => {
                let form = normal_form(catalog.key_at(p));
                vec_equal(&form, c)
            },
            None => true,
        };
        if candidate {
            let provider = catalog.value_at(p);
            let models = provider.models.len();
            let mut m: usize = 0;
            while m < models
                invariant
                    m <= models,
                    p < providers,
                    providers == catalog.keys().len(),
                    providers == catalog.values().len(),
                    *provider == catalog.values()[p as int],
                    is_candidate(creator_view(*creator), catalog.keys()[p as int]),
                    first_hit(*catalog, creator_view(*creator), slug@, loose, 0) == first_hit(
                        *catalog,
                        creator_view(*creator),
                        slug@,
                        loose,
                        p as int,
                    ),
                    models == provider.models.keys().len(),
                    models == provider.models.values().len(),
                    wanted_len <= slug.len(),
                    stripped(slug@) == slug@.take(wanted_len as int),
                    first_model(provider.models.keys(), slug@, loose, 0) == first_model(
                        provider.models.keys(),
                        slug@,
                        loose,
                        m as int,
                    ),
                decreases models - m,
            {
                let key = chars_of(provider.models.key_at(m));
                let answer = if loose {
                    let key_len = stripped_len(&key);
                    key_len == wanted_len && prefix_equal(&key, slug, key_len)
                } else {
                    vec_equal(&key, slug)
                };
                proof {
                    if loose {
                        let a = key@.take(stripped(key@).len() as int);
                        let b = slug@.take(wanted_len as int);
                        lemma_stripped_is_prefix(key@);
                        assert(stripped(key@) == a);
                        if a == b {
                            assert(a.len() == b.len());
                        }
                    }
                    assert(answer == answers(slug@, provider.models.keys()[m as int], loose));
                }
                if answer {
                    return Some((p, m));
                }
                m += 1;
            }
        }
        p += 1;
    }
    None
}

/// The normal form of a creator as a text.
pub open spec fn creator_view(creator: Option<Vec<char>>) -> Option<Seq<char>> {
    match creator {
        Some(c) => Some(c@),
        None => None,
    }
}

/// Finds the counterpart of a record in the catalog: the model that [`winner`]
/// names, with the id of its provider, or nothing where there is no hit.
pub fn find_match<'a>(
    creator_slug: Option<&str>,
    model_slug: &str,
    providers: &'a ModelsDevResponse,
) -> (r: Option<MatchResult<'a>>)
    ensures
        match (r, winner(*providers, slug_view(creator_slug), model_slug@)) {
            (Some(found), Some((p, m))) => {
                &&& 0 <= p < providers.keys().len()
                &&& p < providers.values().len()
                &&& 0 <= m < providers.values()[p].models.keys().len()
                &&& m < providers.values()[p].models.values().len()
                &&& found.provider_id@ == providers.keys()[p]
                &&& *found.model == providers.values()[p].models.values()[m]
            },
            (None, None) => true,
            _ => false,
        },
{
    let creator = match creator_slug {
        Some(c) => Some(normal_form(c)),
        None => None,
    };
    let slug = chars_of(model_slug);
    let hit = match scan(providers, &creator, &slug, false) {
        Some(hit) => Some(hit),
        None => scan(providers, &creator, &slug, true),
    };
    match hit {
        Some((p, m)) => {
            let provider = providers.value_at(p);
            Some(MatchResult { provider_id: providers.key_at(p), model: provider.models.value_at(m) })
        },
        None => None,
    }
}

/// The text of an optional name.
pub open spec fn slug_view(slug: Option<&str>) -> Option<Seq<char>> {
    match slug {
        Some(s) => Some(s@),
        None => None,
    }
}

/// Whether `a` and `b` have the same first `n` characters.
fn prefix_equal(a: &Vec<char>, b: &Vec<char>, n: usize) -> (r: bool)
    requires
        n <= a.len(),
        n <= b.len(),
    ensures
        r == (a@.take(n as int) == b@.take(n as int)),
{
    let mut i: usize = 0;
    while i < n
        invariant
            i <= n,
            n <= a.len(),
            n <= b.len(),
            forall|j: int| 0 <= j < i ==> a@[j] == b@[j],
        decreases n - i,
    {
        if a[i] != b[i] {
            assert(a@.take(n as int)[i as int] != b@.take(n as int)[i as int]);
            return false;
        }
        i += 1;
    }
    assert(a@.take(n as int) =~= b@.take(n as int));
    true
}

} // verus!
