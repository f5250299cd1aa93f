//! The record store: where cached payloads live, how their keys are made, and
//! when they have grown too old.

use vstd::prelude::*;
use crate::bindings::{hex_digit, hex_encode, hex_lower, sha256, sha256_digest};
use crate::number::{divide_half_even, rounded_half_even};
use crate::text::{chars_of, decimal, digit_char, digit_to_char, push_decimal};

verus! {

/// How long a payload stays valid, in seconds: one hour.
pub const DEFAULT_TTL_SECS: u64 = 3600;

/// Where the cache is, and for how long its payloads are valid.
pub struct Cache {
    base_dir: String,
    ttl: u64,
}

/// What a look into the cache found.
#[derive(Debug, Clone, Copy, PartialEq, Eq, Structural)]
pub enum Lookup {
    /// Nothing is stored under the key, or what is stored cannot be read.
    Absent,
    /// The payload has outlived its time; it is to be deleted and not returned.
    Stale,
    /// The payload is valid and is returned.
    Fresh,
}

/// The eight bytes that write the length `n`, the highest first.
pub open spec fn length_bytes(n: nat) -> Seq<u8> {
    let n1 = n / 256;
    let n2 = n1 / 256;
    let n3 = n2 / 256;
    let n4 = n3 / 256;
    let n5 = n4 / 256;
    let n6 = n5 / 256;
    let n7 = n6 / 256;
    seq![
        (n7 % 256) as u8,
        (n6 % 256) as u8,
        (n5 % 256) as u8,
        (n4 % 256) as u8,
        (n3 % 256) as u8,
        (n2 % 256) as u8,
        (n1 % 256) as u8,
        (n % 256) as u8,
    ]
}

/// A text as it enters a key: its UTF-8 bytes, and behind them the number of
/// those bytes, so that no two rows of texts run together into the same bytes.
pub open spec fn framed(text: Seq<char>) -> Seq<u8> {
    vstd::utf8::encode_utf8(text) + length_bytes(vstd::utf8::encode_utf8(text).len())
}

/// The bytes of a request that its key is derived from: the endpoint, then of
/// the first `n` parameters the name and the value, each framed.
pub open spec fn key_material(endpoint: Seq<char>, params: Seq<(&str, &str)>, n: nat) -> Seq<u8>
    decreases n,
{
    if n == 0 {
        framed(endpoint)
    } else {
        key_material(endpoint, params, (n - 1) as nat) + framed(params[n - 1].0@) + framed(
            params[n - 1].1@,
        )
    }
}

/// `s` with every slash turned into a hyphen.
pub open spec fn dashed(s: Seq<char>) -> Seq<char> {
    s.map_values(
        |c: char|
            if c == '/' {
                '-'
            } else {
                c
            },
    )
}

/// The first eight bytes of a digest; a digest that is shorter counts as
/// filled up with zeros.
pub open spec fn first_eight(digest: Seq<u8>) -> Seq<u8> {
    Seq::new(
        8,
        |i: int|
            if i < digest.len() {
                digest[i]
            } else {
                0u8
            },
    )
}

/// The key of a request: the endpoint with hyphens for slashes, a hyphen, and
/// the first eight bytes of the SHA-256 digest of the request in hexadecimal.
pub open spec fn key_text(endpoint: Seq<char>, params: Seq<(&str, &str)>) -> Seq<char> {
    dashed(endpoint) + seq!['-'] + hex_lower(
        first_eight(sha256_digest(key_material(endpoint, params, params.len()))),
    )
}

/// Hexadecimal text is twice as long as the bytes it writes.
pub proof fn lemma_hex_len(bytes: Seq<u8>)
    ensures
        hex_lower(bytes).len() == 2 * bytes.len(),
    decreases bytes.len(),
{
    if bytes.len() > 0 {
        lemma_hex_len(bytes.drop_last());
    }
}

/// Different hexadecimal digits write different numbers.
pub proof fn lemma_hex_digit_injective(a: int, b: int)
    requires
        0 <= a < 16,
        0 <= b < 16,
        hex_digit(a) == hex_digit(b),
    ensures
        a == b,
{
}

/// Different bytes are written as different hexadecimal text.
pub proof fn lemma_hex_injective(a: Seq<u8>, b: Seq<u8>)
    requires
        hex_lower(a) == hex_lower(b),
    ensures
        a == b,
    decreases a.len(),
{
    lemma_hex_len(a);
    lemma_hex_len(b);
    if a.len() > 0 {
        let ha = hex_lower(a.drop_last());
        let hb = hex_lower(b.drop_last());
        lemma_hex_len(a.drop_last());
        lemma_hex_len(b.drop_last());
        let x = a.last() as int;
        let y = b.last() as int;
        let whole = hex_lower(a);
        assert(whole[ha.len() as int] == hex_digit(x / 16));
        assert(whole[ha.len() as int + 1] == hex_digit(x % 16));
        assert(whole[hb.len() as int] == hex_digit(y / 16));
        assert(whole[hb.len() as int + 1] == hex_digit(y % 16));
        lemma_hex_digit_injective(x / 16, y / 16);
        lemma_hex_digit_injective(x % 16, y % 16);
        assert(ha == whole.subrange(0, ha.len() as int));
        assert(hb == whole.subrange(0, hb.len() as int));
        lemma_hex_injective(a.drop_last(), b.drop_last());
        assert(a == a.drop_last().push(a.last()));
        assert(b == b.drop_last().push(b.last()));
    } else {
        assert(a =~= b);
    }
}

/// Whether a text is short enough for its length to be written in eight bytes,
/// as every text that a machine holds is.
pub open spec fn is_countable(text: Seq<char>) -> bool {
    vstd::utf8::encode_utf8(text).len() <= u64::MAX
}

/// Whether the endpoint and every name and value of a request are countable.
pub open spec fn is_request(endpoint: Seq<char>, params: Seq<(&str, &str)>) -> bool {
    &&& is_countable(endpoint)
    &&& forall|i: int|
        0 <= i < params.len() ==> is_countable((#[trigger] params[i]).0@) && is_countable(
            params[i].1@,
        )
}

/// Whether two lists of parameters have the same names and values in the same order.
pub open spec fn same_params(params: Seq<(&str, &str)>, other: Seq<(&str, &str)>) -> bool {
    &&& params.len() == other.len()
    &&& forall|i: int|
        0 <= i < params.len() ==> (#[trigger] params[i]).0@ == other[i].0@ && params[i].1@
            == other[i].1@
}

/// Different lengths below two to the power of 64 are written differently.
pub proof fn lemma_length_bytes_injective(a: nat, b: nat)
    requires
        a <= u64::MAX,
        b <= u64::MAX,
        length_bytes(a) == length_bytes(b),
    ensures
        a == b,
{
    let x = length_bytes(a);
    let y = length_bytes(b);
    let a1 = a / 256;
    let a2 = a1 / 256;
    let a3 = a2 / 256;
    let a4 = a3 / 256;
    let a5 = a4 / 256;
    let a6 = a5 / 256;
    let a7 = a6 / 256;
    let b1 = b / 256;
    let b2 = b1 / 256;
    let b3 = b2 / 256;
    let b4 = b3 / 256;
    let b5 = b4 / 256;
    let b6 = b5 / 256;
    let b7 = b6 / 256;
    assert(a7 < 256 && b7 < 256);
    assert(x[0] == y[0]);
    assert(a7 == b7);
    assert(x[1] == y[1]);
    assert(a6 == b6);
    assert(x[2] == y[2]);
    assert(a5 == b5);
    assert(x[3] == y[3]);
    assert(a4 == b4);
    assert(x[4] == y[4]);
    assert(a3 == b3);
    assert(x[5] == y[5]);
    assert(a2 == b2);
    assert(x[6] == y[6]);
    assert(a1 == b1);
    assert(x[7] == y[7]);
}

/// A framed text at the end of some bytes can be read off them again: where
/// two rows of bytes with a framed text behind each are the same, the texts
/// are the same and so are the bytes before them.
pub proof fn lemma_framed_at_end(before: Seq<u8>, text: Seq<char>, other_before: Seq<u8>, other: Seq<char>)
    requires
        is_countable(text),
        is_countable(other),
        before + framed(text) == other_before + framed(other),
    ensures
        text == other,
        before == other_before,
{
    let a = vstd::utf8::encode_utf8(text);
    let b = vstd::utf8::encode_utf8(other);
    let x = before + framed(text);
    let y = other_before + framed(other);
    let n = x.len() as int;
    assert(length_bytes(a.len()).len() == 8);
    assert(length_bytes(b.len()).len() == 8);
    assert(x.subrange(n - 8, n) == length_bytes(a.len()));
    assert(y.subrange(n - 8, n) == length_bytes(b.len()));
    lemma_length_bytes_injective(a.len(), b.len());
    assert(x.subrange(n - 8 - a.len(), n - 8) == a);
    assert(y.subrange(n - 8 - b.len(), n - 8) == b);
    vstd::utf8::encode_utf8_decode_utf8(text);
    vstd::utf8::encode_utf8_decode_utf8(other);
    assert(x.subrange(0, n - 8 - a.len()) == before);
    assert(y.subrange(0, n - 8 - b.len()) == other_before);
}

/// The material of a request tells the request: where the materials of two
/// requests are the same, so are the endpoints, and the names and values of
/// the parameters one by one.
pub proof fn lemma_material_tells_request(
    endpoint: Seq<char>,
    params: Seq<(&str, &str)>,
    n: nat,
    other_endpoint: Seq<char>,
    other_params: Seq<(&str, &str)>,
    m: nat,
)
    requires
        is_request(endpoint, params),
        is_request(other_endpoint, other_params),
        n <= params.len(),
        m <= other_params.len(),
        key_material(endpoint, params, n) == key_material(other_endpoint, other_params, m),
    ensures
        endpoint == other_endpoint,
        n == m,
        forall|i: int|
            0 <= i < n ==> (#[trigger] params[i]).0@ == other_params[i].0@ && params[i].1@
                == other_params[i].1@,
    decreases n + m,
{
    let empty = Seq::<u8>::empty();
    if n == 0 && m == 0 {
        assert(empty + framed(endpoint) == framed(endpoint));
        assert(empty + framed(other_endpoint) == framed(other_endpoint));
        lemma_framed_at_end(empty, endpoint, empty, other_endpoint);
    } else if n == 0 {
        let front = key_material(other_endpoint, other_params, (m - 1) as nat) + framed(
            other_params[m - 1].0@,
        );
        assert(empty + framed(endpoint) == framed(endpoint));
        lemma_framed_at_end(empty, endpoint, front, other_params[m - 1].1@);
        assert(framed(other_params[m - 1].0@).len() >= 8);
        assert(front.len() >= 8);
    } else if m == 0 {
        let front = key_material(endpoint, params, (n - 1) as nat) + framed(params[n - 1].0@);
        assert(empty + framed(other_endpoint) == framed(other_endpoint));
        lemma_framed_at_end(front, params[n - 1].1@, empty, other_endpoint);
        assert(framed(params[n - 1].0@).len() >= 8);
        assert(front.len() >= 8);
    } else {
        let a = key_material(endpoint, params, (n - 1) as nat);
        let b = key_material(other_endpoint, other_params, (m - 1) as nat);
        lemma_framed_at_end(
            a + framed(params[n - 1].0@),
            params[n - 1].1@,
            b + framed(other_params[m - 1].0@),
            other_params[m - 1].1@,
        );
        lemma_framed_at_end(a, params[n - 1].0@, b, other_params[m - 1].0@);
        lemma_material_tells_request(
            endpoint,
            params,
            (n - 1) as nat,
            other_endpoint,
            other_params,
            (m - 1) as nat,
        );
    }
}

/// Two requests that differ in the endpoint, or in the number, a name or a
/// value of their parameters, have different material; so their keys differ
/// unless the digests of different materials agree in their first eight bytes.
pub proof fn lemma_requests_differ(
    endpoint: Seq<char>,
    params: Seq<(&str, &str)>,
    other_endpoint: Seq<char>,
    other_params: Seq<(&str, &str)>,
)
    requires
        is_request(endpoint, params),
        is_request(other_endpoint, other_params),
        endpoint != other_endpoint || !same_params(params, other_params),
    ensures
        key_material(endpoint, params, params.len()) != key_material(
            other_endpoint,
            other_params,
            other_params.len(),
        ),
{
    if key_material(endpoint, params, params.len()) == key_material(
        other_endpoint,
        other_params,
        other_params.len(),
    ) {
        lemma_material_tells_request(
            endpoint,
            params,
            params.len(),
            other_endpoint,
            other_params,
            other_params.len(),
        );
    }
}

/// Two requests have different keys whenever their endpoints differ by more
/// than slashes against hyphens, or the first eight bytes of their digests differ.
pub proof fn lemma_keys_differ(
    endpoint: Seq<char>,
    params: Seq<(&str, &str)>,
    other_endpoint: Seq<char>,
    other_params: Seq<(&str, &str)>,
)
    requires
        dashed(endpoint) != dashed(other_endpoint) || first_eight(
            sha256_digest(key_material(endpoint, params, params.len())),
        ) != first_eight(
            sha256_digest(key_material(other_endpoint, other_params, other_params.len())),
        ),
    ensures
        key_text(endpoint, params) != key_text(other_endpoint, other_params),
{
    let a = first_eight(sha256_digest(key_material(endpoint, params, params.len())));
    let b = first_eight(
        sha256_digest(key_material(other_endpoint, other_params, other_params.len())),
    );
    lemma_hex_len(a);
    lemma_hex_len(b);
    let k = key_text(endpoint, params);
    let o = key_text(other_endpoint, other_params);
    if k == o {
        let n = dashed(endpoint).len() as int;
        assert(a.len() == 8 && b.len() == 8);
        assert(k.len() == n + 1 + 16);
        assert(o.len() == dashed(other_endpoint).len() + 1 + 16);
        assert(dashed(other_endpoint).len() == n);
        assert(dashed(endpoint) == k.subrange(0, n));
        assert(dashed(other_endpoint) == o.subrange(0, n));
        assert(hex_lower(a) == k.subrange(n + 1, k.len() as int));
        assert(hex_lower(b) == o.subrange(n + 1, o.len() as int));
        lemma_hex_injective(a, b);
    }
}

/// Appends the UTF-8 bytes of `s`.
fn push_bytes(out: &mut Vec<u8>, s: &str)
    ensures
        final(out)@ == old(out)@ + vstd::utf8::encode_utf8(s@),
{
    let bytes = s.as_bytes();
    let mut i: usize = 0;
    while i < bytes.len()
        invariant
            i <= bytes.len(),
            bytes@ == vstd::utf8::encode_utf8(s@),
            out@ == old(out)@ + bytes@.take(i as int),
        decreases bytes.len() - i,
    {
        out.push(bytes[i]);
        i += 1;
        assert(bytes@.take(i as int) == bytes@.take(i - 1).push(bytes@[i - 1]));
    }
    assert(bytes@.take(bytes.len() as int) == bytes@);
}

/// Appends [`framed`].
fn push_framed(out: &mut Vec<u8>, s: &str)
    ensures
        final(out)@ == old(out)@ + framed(s@),
{
    let len: u64 = s.as_bytes().len() as u64;
    let ghost before = out@;
    push_bytes(out, s);
    let n1: u64 = len / 256;
    let n2: u64 = n1 / 256;
    let n3: u64 = n2 / 256;
    let n4: u64 = n3 / 256;
    let n5: u64 = n4 / 256;
    let n6: u64 = n5 / 256;
    let n7: u64 = n6 / 256;
    out.push((n7 % 256) as u8);
    out.push((n6 % 256) as u8);
    out.push((n5 % 256) as u8);
    out.push((n4 % 256) as u8);
    out.push((n3 % 256) as u8);
    out.push((n2 % 256) as u8);
    out.push((n1 % 256) as u8);
    out.push((len % 256) as u8);
    assert(out@ =~= before + framed(s@));
}

/// `file` in the directory `dir`: behind the directory and a slash, unless
/// the directory is empty or ends in a slash already.
pub open spec fn joined(dir: Seq<char>, file: Seq<char>) -> Seq<char> {
    if dir.len() == 0 {
        file
    } else if dir.last() == '/' {
        dir + file
    } else {
        dir + seq!['/'] + file
    }
}

/// Computes [`joined`] for a file name with an ending.
fn join(dir: &str, name: &str, ending: &str) -> (path: String)
    ensures
        path@ == joined(dir@, name@ + ending@),
{
    let chars = chars_of(dir);
    let mut path = String::new();
    path.append(dir);
    if chars.len() > 0 && chars[chars.len() - 1] != '/' {
        path.push('/');
    }
    path.append(name);
    path.append(ending);
    proof {
        if chars.len() == 0 {
            assert(path@ =~= name@ + ending@);
        } else if chars@.last() == '/' {
            assert(path@ =~= dir@ + (name@ + ending@));
        } else {
            assert(path@ =~= dir@ + seq!['/'] + (name@ + ending@));
        }
    }
    path
}

impl Cache {
    /// The directory of the cache.
    pub closed spec fn dir(self) -> Seq<char> {
        self.base_dir@
    }

    /// For how many seconds a payload is valid.
    pub closed spec fn ttl_secs(self) -> u64 {
        self.ttl
    }

    /// A cache in `base_dir` with the default time of validity.
    pub fn new(base_dir: String) -> (cache: Self)
        ensures
            cache.dir() == base_dir@,
            cache.ttl_secs() == DEFAULT_TTL_SECS,
    {
        Cache { base_dir, ttl: DEFAULT_TTL_SECS }
    }

    /// The directory of the cache.
    pub fn base_dir(&self) -> (dir: &str)
        ensures
            dir@ == self.dir(),
    {
        self.base_dir.as_str()
    }

    /// The path of the table file called `name`.
    pub fn parquet_path(&self, name: &str) -> (path: String)
        ensures
            path@ == joined(self.dir(), name@ + ".parquet"@),
    {
        join(self.base_dir.as_str(), name, ".parquet")
    }

    /// The path of the payload stored under `key`.
    pub fn entry_path(&self, key: &str) -> (path: String)
        ensures
            path@ == joined(self.dir(), key@ + ".json"@),
    {
        join(self.base_dir.as_str(), key, ".json")
    }

    /// Generates the key of a request from its endpoint and parameters.
    pub fn cache_key(endpoint: &str, params: &[(&str, &str)]) -> (key: String)
        ensures
            key@ == key_text(endpoint@, params@),
    {
        let mut material: Vec<u8> = Vec::new();
        push_framed(&mut material, endpoint);
        let mut i: usize = 0;
        while i < params.len()
            invariant
                i <= params.len(),
                material@ == key_material(endpoint@, params@, i as nat),
            decreases params.len() - i,
        {
            push_framed(&mut material, params[i].0);
            push_framed(&mut material, params[i].1);
            i += 1;
        }
        Cache::key_from_digest(endpoint, &sha256(&material))
    }

    /// Puts a key together from an endpoint and the digest of a request: the
    /// endpoint with hyphens for slashes, a hyphen, and the first eight bytes of
    /// the digest in hexadecimal.
    pub fn key_from_digest(endpoint: &str, digest: &Vec<u8>) -> (key: String)
        ensures
            key@ == dashed(endpoint@) + seq!['-'] + hex_lower(first_eight(digest@)),
    {
        let mut head: Vec<u8> = Vec::new();
        let mut i: usize = 0;
        while i < 8
            invariant
                i <= 8,
                head@.len() == i,
                forall|k: int| 0 <= k < i ==> head@[k] == first_eight(digest@)[k],
            decreases 8 - i,
        {
            head.push(if i < digest.len() { digest[i] } else { 0 });
            i += 1;
        }
        assert(head@ =~= first_eight(digest@));
        let hash = hex_encode(&head);
        let name = chars_of(endpoint);
        let mut key = String::new();
        let mut j: usize = 0;
        while j < name.len()
            invariant
                j <= name.len(),
                key@ == dashed(name@.take(j as int)),
            decreases name.len() - j,
        {
            let c = name[j];
            key.push(if c == '/' { '-' } else { c });
            j += 1;
            assert(dashed(name@.take(j as int)) == dashed(name@.take(j - 1)).push(
                dashed(name@)[j - 1],
            ));
        }
        assert(name@.take(name.len() as int) == name@);
        key.push('-');
        key.append(hash.as_str());
        key
    }

    /// Whether a payload captured at `cached_at` is still valid at `now`, both
    /// in seconds: it is as long as less than the time of validity has passed.
    pub fn is_fresh(&self, cached_at: i64, now: i64) -> (fresh: bool)
        ensures
            fresh == (now - cached_at < self.ttl_secs()),
    {
        (now as i128) - (cached_at as i128) < self.ttl as i128
    }

    /// Judges a look into the cache at time `now`: `cached_at` is when the
    /// payload found was captured, or nothing where none was found or what was
    /// found could not be read.
    pub fn judge(&self, cached_at: Option<i64>, now: i64) -> (found: Lookup)
        ensures
            found == (match cached_at {
                None => Lookup::Absent,
                Some(at) => if now - at < self.ttl_secs() {
                    Lookup::Fresh
                } else {
                    Lookup::Stale
                },
            }),
    {
        match cached_at {
            None => Lookup::Absent,
            Some(at) => if self.is_fresh(at, now) {
                Lookup::Fresh
            } else {
                Lookup::Stale
            },
        }
    }
}

/// What is known of the size of the cache.
#[derive(Debug)]
pub struct CacheStats {
    pub location: String,
    pub entry_count: u32,
    pub total_size: u64,
}

/// `n / unit` written with one fractional digit, rounded half to even.
pub open spec fn one_decimal(n: nat, unit: nat) -> Seq<char> {
    let tenths = rounded_half_even(10 * n, unit);
    decimal(tenths / 10) + seq!['.'] + seq![digit_char(tenths % 10)]
}

/// A size in bytes for people: in bytes below 1024, in KB below 1024 KB, else in MB.
pub open spec fn human_size(n: nat) -> Seq<char> {
    if n < 1024 {
        decimal(n) + " B"@
    } else if n < 1024 * 1024 {
        one_decimal(n, 1024) + " KB"@
    } else {
        one_decimal(n, 1024 * 1024) + " MB"@
    }
}

/// Appends [`one_decimal`].
fn push_one_decimal(out: &mut String, n: u64, unit: u64)
    requires
        unit > 0,
    ensures
        final(out)@ == old(out)@ + one_decimal(n as nat, unit as nat),
{
    let tenths: u128 = divide_half_even(10 * (n as u128), unit as u128);
    push_decimal(out, tenths / 10);
    out.push('.');
    out.push(digit_to_char((tenths % 10) as u8));
}

/// The sum of the first `n` sizes.
pub open spec fn sum_of(sizes: Seq<u64>, n: nat) -> nat
    decreases n,
{
    if n == 0 {
        0
    } else {
        sum_of(sizes, (n - 1) as nat) + sizes[n - 1] as nat
    }
}

/// The ending of a file name: what stands behind its last dot, unless the
/// name has no dot or begins with its only one.
pub open spec fn ending_of(name: Seq<char>) -> Option<Seq<char>> {
    let at = crate::text::last_position(name, '.');
    if 0 < at < name.len() {
        Some(name.subrange(at + 1, name.len() as int))
    } else {
        None
    }
}

/// Whether a file of this name belongs to the cache: a payload ends in `json`,
/// a table in `parquet`.
pub open spec fn is_cache_name(name: Seq<char>) -> bool {
    ending_of(name) == Some("json"@) || ending_of(name) == Some("parquet"@)
}

/// Decides [`is_cache_name`].
pub fn is_cache_file(name: &str) -> (r: bool)
    ensures
        r == is_cache_name(name@),
{
    let chars = chars_of(name);
    let mut at: usize = chars.len();
    assert(chars@.subrange(0, at as int) == chars@);
    while at > 0 && chars[at - 1] != '.'
        invariant
            at <= chars.len(),
            crate::text::last_position(chars@, '.') == crate::text::last_position(
                chars@.subrange(0, at as int),
                '.',
            ),
        decreases at,
    {
        assert(chars@.subrange(0, at as int).drop_last() == chars@.subrange(0, at - 1));
        at -= 1;
    }
    if at <= 1 {
        proof {
            if at == 1 {
                assert(chars@.subrange(0, 1).last() == chars@[0]);
            }
        }
        return false;
    }
    assert(chars@.subrange(0, at as int).last() == chars@[at - 1]);
    let ending = crate::text::string_of_range(&chars, at, chars.len());
    crate::text::str_equal(ending.as_str(), "json") || crate::text::str_equal(
        ending.as_str(),
        "parquet",
    )
}

impl CacheStats {
    /// The statistics of a cache at `location` that holds files of the sizes
    /// `sizes`; the count and the total stop at the largest numbers they can hold.
    pub fn of(location: String, sizes: &Vec<u64>) -> (stats: CacheStats)
        ensures
            stats.location == location,
            stats.entry_count == if sizes@.len() > u32::MAX {
                u32::MAX as int
            } else {
                sizes@.len() as int
            },
            stats.total_size == if sum_of(sizes@, sizes@.len()) > u64::MAX {
                u64::MAX as int
            } else {
                sum_of(sizes@, sizes@.len()) as int
            },
    {
        let mut count: u32 = 0;
        let mut total: u64 = 0;
        let mut i: usize = 0;
        while i < sizes.len()
            invariant
                i <= sizes.len(),
                count == if i > u32::MAX {
                    u32::MAX as int
                } else {
                    i as int
                },
                total == if sum_of(sizes@, i as nat) > u64::MAX {
                    u64::MAX as int
                } else {
                    sum_of(sizes@, i as nat) as int
                },
            decreases sizes.len() - i,
        {
            if count < u32::MAX {
                count += 1;
            }
            total = if sizes[i] > u64::MAX - total {
                u64::MAX
            } else {
                total + sizes[i]
            };
            i += 1;
        }
        CacheStats { location, entry_count: count, total_size: total }
    }

    /// The total size for people to read.
    pub fn size_human(&self) -> (text: String)
        ensures
            text@ == human_size(self.total_size as nat),
    {
        let mut text = String::new();
        if self.total_size < 1024 {
            push_decimal(&mut text, self.total_size as u128);
            text.append(" B");
        } else if self.total_size < 1024 * 1024 {
            push_one_decimal(&mut text, self.total_size, 1024);
            text.append(" KB");
        } else {
            push_one_decimal(&mut text, self.total_size, 1024 * 1024);
            text.append(" MB");
        }
        text
    }
}

} // verus!
