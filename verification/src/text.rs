//! Character-level helpers shared by the parsers and formatters.

use vstd::prelude::*;

verus! {

/// The characters of `s`, in order.
pub fn chars_of(s: &str) -> (v: Vec<char>)
    ensures
        v@ == s@,
{
    let mut v: Vec<char> = Vec::new();
    for c in it: s.chars()
        invariant
            v@ == it.seq().take(it.index()),
    {
        v.push(c);
    }
    v
}

/// The string made of the characters `v[from..to]`.
pub fn string_of_range(v: &Vec<char>, from: usize, to: usize) -> (s: String)
    requires
        from <= to <= v.len(),
    ensures
        s@ == v@.subrange(from as int, to as int),
{
    let mut s = String::new();
    let mut i: usize = from;
    while i < to
        invariant
            from <= i <= to <= v.len(),
            s@ == v@.subrange(from as int, i as int),
        decreases to - i,
    {
        s.push(v[i]);
        i += 1;
    }
    s
}

/// Whether `c` is an ASCII upper-case letter.
pub open spec fn is_upper(c: char) -> bool {
    'A' <= c <= 'Z'
}

/// The ASCII lower-case form of `c`; characters other than `A`..`Z` are unchanged.
pub open spec fn lower_char(c: char) -> char {
    if is_upper(c) {
        ((c as u8) + 32) as char
    } else {
        c
    }
}

/// The ASCII lower-case form of a text.
pub open spec fn lower(s: Seq<char>) -> Seq<char> {
    s.map_values(|c: char| lower_char(c))
}

/// Computes [`lower_char`].
pub fn to_lower_char(c: char) -> (r: char)
    ensures
        r == lower_char(c),
{
    if 'A' <= c && c <= 'Z' {
        ((c as u8) + 32) as char
    } else {
        c
    }
}

/// Computes [`lower`].
pub fn to_lower(v: &Vec<char>) -> (r: Vec<char>)
    ensures
        r@ == lower(v@),
{
    let mut r: Vec<char> = Vec::new();
    let mut i: usize = 0;
    while i < v.len()
        invariant
            i <= v.len(),
            r@ == lower(v@.take(i as int)),
        decreases v.len() - i,
    {
        r.push(to_lower_char(v[i]));
        i += 1;
        assert(lower(v@.take(i as int)) == lower(v@.take(i - 1)).push(lower_char(v@[i - 1])));
    }
    assert(v@.take(v.len() as int) == v@);
    r
}

/// The first `n` of `parts`, each two neighbours separated by `sep`.
pub open spec fn join_upto(parts: Seq<Seq<char>>, sep: Seq<char>, n: nat) -> Seq<char>
    decreases n,
{
    if n == 0 {
        Seq::empty()
    } else if n == 1 {
        parts[0]
    } else {
        join_upto(parts, sep, (n - 1) as nat) + sep + parts[n - 1]
    }
}

/// All of `parts`, each two neighbours separated by `sep`.
pub open spec fn join(parts: Seq<Seq<char>>, sep: Seq<char>) -> Seq<char> {
    join_upto(parts, sep, parts.len())
}

/// The views of a list of strings.
pub open spec fn views(list: Seq<String>) -> Seq<Seq<char>> {
    list.map_values(|s: String| s@)
}

/// Joins `list` with `sep` between neighbours.
pub fn join_strings(list: &Vec<String>, sep: &str) -> (out: String)
    ensures
        out@ == join(views(list@), sep@),
{
    let mut out = String::new();
    let mut i: usize = 0;
    while i < list.len()
        invariant
            i <= list.len(),
            out@ == join_upto(views(list@), sep@, i as nat),
        decreases list.len() - i,
    {
        if i > 0 {
            out.append(sep);
        }
        out.append(list[i].as_str());
        i += 1;
    }
    out
}

/// Whether `needle` occurs in `hay` at offset `at`.
pub open spec fn occurs_at(hay: Seq<char>, needle: Seq<char>, at: int) -> bool {
    0 <= at && at + needle.len() <= hay.len() && hay.subrange(at, at + needle.len()) == needle
}

/// Whether `needle` occurs somewhere in `hay`.
pub open spec fn contains(hay: Seq<char>, needle: Seq<char>) -> bool {
    exists|at: int| occurs_at(hay, needle, at)
}

/// Decides [`occurs_at`].
pub fn matches_at(hay: &Vec<char>, needle: &Vec<char>, at: usize) -> (r: bool)
    ensures
        r == occurs_at(hay@, needle@, at as int),
{
    if needle.len() > hay.len() || at > hay.len() - needle.len() {
        return false;
    }
    let mut k: usize = 0;
    while k < needle.len()
        invariant
            k <= needle.len(),
            at + needle.len() <= hay.len(),
            hay@.subrange(at as int, at + k) == needle@.take(k as int),
        decreases needle.len() - k,
    {
        if hay[at + k] != needle[k] {
            proof {
                let sub = hay@.subrange(at as int, at + needle.len());
                assert(sub[k as int] != needle@[k as int]);
            }
            return false;
        }
        k += 1;
        assert(hay@.subrange(at as int, at + k) == hay@.subrange(at as int, at + k - 1).push(
            hay@[at + k - 1],
        ));
        assert(needle@.take(k as int) == needle@.take(k - 1).push(needle@[k - 1]));
    }
    assert(needle@.take(needle.len() as int) == needle@);
    true
}

/// Decides [`contains`].
pub fn find_in(hay: &Vec<char>, needle: &Vec<char>) -> (r: bool)
    ensures
        r == contains(hay@, needle@),
{
    if needle.len() > hay.len() {
        return false;
    }
    let last: usize = hay.len() - needle.len();
    let mut at: usize = 0;
    loop
        invariant
            at <= last,
            last == hay.len() - needle.len(),
            forall|a: int| 0 <= a < at ==> !occurs_at(hay@, needle@, a),
        decreases last - at,
    {
        if matches_at(hay, needle, at) {
            return true;
        }
        if at == last {
            return false;
        }
        at += 1;
    }
}

/// Whether `needle` occurs somewhere in `hay`.
pub fn str_contains(hay: &str, needle: &str) -> (r: bool)
    ensures
        r == contains(hay@, needle@),
{
    let h = chars_of(hay);
    let n = chars_of(needle);
    find_in(&h, &n)
}

/// The character for a decimal digit `d < 10`.
pub open spec fn digit_char(d: nat) -> char {
    (48 + d) as u8 as char
}

/// The decimal numeral of `n`, without leading zeros.
pub open spec fn decimal(n: nat) -> Seq<char>
    decreases n,
{
    if n < 10 {
        seq![digit_char(n)]
    } else {
        decimal(n / 10).push(digit_char(n % 10))
    }
}

/// Computes [`digit_char`].
pub fn digit_to_char(d: u8) -> (c: char)
    requires
        d < 10,
    ensures
        c == digit_char(d as nat),
{
    (48 + d) as char
}

/// Appends the decimal numeral of `n` to `out`.
pub fn push_decimal(out: &mut String, n: u128)
    ensures
        final(out)@ == old(out)@ + decimal(n as nat),
{
    let mut digits: Vec<char> = Vec::new();
    let mut rest: u128 = n;
    while rest >= 10
        invariant
            decimal(n as nat) == decimal(rest as nat) + digits@.reverse(),
        decreases rest,
    {
        let d: u8 = (rest % 10) as u8;
        let ghost before = digits@;
        digits.push(digit_to_char(d));
        proof {
            assert(digits@.reverse() == seq![digit_char(d as nat)] + before.reverse());
            assert(decimal(rest as nat) == decimal((rest / 10) as nat).push(digit_char(d as nat)));
            assert(decimal((rest / 10) as nat).push(digit_char(d as nat)) + before.reverse()
                == decimal((rest / 10) as nat) + digits@.reverse());
        }
        rest = rest / 10;
    }
    out.push(digit_to_char(rest as u8));
    let mut k: usize = digits.len();
    while k > 0
        invariant
            k <= digits.len(),
            rest < 10,
            decimal(n as nat) == decimal(rest as nat) + digits@.reverse(),
            out@ == old(out)@ + decimal(rest as nat) + digits@.reverse().take(digits.len() - k),
        decreases k,
    {
        k -= 1;
        out.push(digits[k]);
        proof {
            let r = digits@.reverse();
            let m = digits.len() - k;
            assert(r.take(m) == r.take(m - 1).push(r[m - 1]));
            assert(r[m - 1] == digits@[k as int]);
        }
    }
    proof {
        let r = digits@.reverse();
        assert(r.take(digits.len() as int) == r);
    }
}

/// Whether two texts hold the same characters.
pub fn str_equal(a: &str, b: &str) -> (r: bool)
    ensures
        r == (a@ == b@),
{
    let x = chars_of(a);
    let y = chars_of(b);
    vec_equal(&x, &y)
}

/// Whether two character lists hold the same characters.
pub fn vec_equal(a: &Vec<char>, b: &Vec<char>) -> (r: bool)
    ensures
        r == (a@ == b@),
{
    if a.len() != b.len() {
        return false;
    }
    let mut i: usize = 0;
    while i < a.len()
        invariant
            i <= a.len(),
            a.len() == b.len(),
            forall|j: int| 0 <= j < i ==> a@[j] == b@[j],
        decreases a.len() - i,
    {
        if a[i] != b[i] {
            return false;
        }
        i += 1;
    }
    assert(a@ =~= b@);
    true
}

/// Appends the characters `v[from..to]` to `out`.
pub fn push_range(out: &mut String, v: &Vec<char>, from: usize, to: usize)
    requires
        from <= to <= v.len(),
    ensures
        final(out)@ == old(out)@ + v@.subrange(from as int, to as int),
{
    let mut i: usize = from;
    while i < to
        invariant
            from <= i <= to <= v.len(),
            out@ == old(out)@ + v@.subrange(from as int, i as int),
        decreases to - i,
    {
        out.push(v[i]);
        i += 1;
        assert(v@.subrange(from as int, i as int) == v@.subrange(from as int, i - 1).push(
            v@[i - 1],
        ));
    }
}

/// The lower-case form of the characters `v[from..to]`.
pub fn to_lower_range(v: &Vec<char>, from: usize, to: usize) -> (r: Vec<char>)
    requires
        from <= to <= v.len(),
    ensures
        r@ == lower(v@.subrange(from as int, to as int)),
{
    let mut r: Vec<char> = Vec::new();
    let mut i: usize = from;
    while i < to
        invariant
            from <= i <= to <= v.len(),
            r@ == lower(v@.subrange(from as int, i as int)),
        decreases to - i,
    {
        r.push(to_lower_char(v[i]));
        i += 1;
        assert(v@.subrange(from as int, i as int) == v@.subrange(from as int, i - 1).push(
            v@[i - 1],
        ));
        assert(lower(v@.subrange(from as int, i as int)) == lower(
            v@.subrange(from as int, i - 1),
        ).push(lower_char(v@[i - 1])));
    }
    r
}

/// The decimal numeral of an integer, with a minus sign before a negative one.
pub open spec fn signed_decimal(n: int) -> Seq<char> {
    if n < 0 {
        seq!['-'] + decimal((-n) as nat)
    } else {
        decimal(n as nat)
    }
}

/// Appends [`signed_decimal`] of `n` to `out`.
pub fn push_signed_decimal(out: &mut String, n: i128)
    ensures
        final(out)@ == old(out)@ + signed_decimal(n as int),
{
    if n < 0 {
        out.push('-');
        let magnitude: u128 = (-(n + 1)) as u128 + 1;
        push_decimal(out, magnitude);
    } else {
        push_decimal(out, n as u128);
    }
}

/// A copy of an optional text.
pub fn clone_text(o: &Option<String>) -> (r: Option<String>)
    ensures
        r == *o,
{
    match o {
        Some(s) => Some(s.clone()),
        None => None,
    }
}

/// A copy of a list of texts.
pub fn clone_texts(v: &Vec<String>) -> (r: Vec<String>)
    ensures
        r@ == v@,
{
    let mut r: Vec<String> = Vec::new();
    let mut i: usize = 0;
    while i < v.len()
        invariant
            i <= v.len(),
            r@ == v@.take(i as int),
        decreases v.len() - i,
    {
        r.push(v[i].clone());
        i += 1;
        assert(v@.take(i as int) == v@.take(i - 1).push(v@[i - 1]));
    }
    assert(v@.take(v.len() as int) == v@);
    r
}

/// The position of the last `sep` in `s`, or -1 where `s` has none.
pub open spec fn last_position(s: Seq<char>, sep: char) -> int
    decreases s.len(),
{
    if s.len() == 0 {
        -1
    } else if s.last() == sep {
        s.len() - 1
    } else {
        last_position(s.drop_last(), sep)
    }
}

/// The parts of `s` between the occurrences of `sep`; a text without `sep` is
/// its own single part.
pub open spec fn pieces(s: Seq<char>, sep: char) -> Seq<Seq<char>>
    decreases s.len(),
{
    let at = last_position(s, sep);
    if 0 <= at < s.len() {
        pieces(s.subrange(0, at), sep).push(s.subrange(at + 1, s.len() as int))
    } else {
        seq![s]
    }
}

/// The tokens of `s` between the occurrences of `sep`; the empty text has no tokens.
pub open spec fn split(s: Seq<char>, sep: char) -> Seq<Seq<char>> {
    if s.len() == 0 {
        Seq::empty()
    } else {
        pieces(s, sep)
    }
}

/// Where the last `sep` is when a part without `sep` follows it.
pub proof fn lemma_last_position(prefix: Seq<char>, sep: char, part: Seq<char>)
    requires
        !part.contains(sep),
    ensures
        last_position(prefix + seq![sep] + part, sep) == prefix.len(),
        last_position(part, sep) == -1,
    decreases part.len(),
{
    let whole = prefix + seq![sep] + part;
    if part.len() == 0 {
        assert(whole.last() == sep);
    } else {
        assert(part.contains(part.last()));
        assert(whole.last() == part.last());
        assert(!part.drop_last().contains(sep)) by {
            if part.drop_last().contains(sep) {
                let i = part.drop_last().index_of(sep);
                assert(part[i] == sep);
            }
        }
        lemma_last_position(prefix, sep, part.drop_last());
        assert(whole.drop_last() == prefix + seq![sep] + part.drop_last());
    }
}

/// A part without `sep` behind a `sep` is the last of the pieces.
pub proof fn lemma_pieces_push(prefix: Seq<char>, sep: char, part: Seq<char>)
    requires
        !part.contains(sep),
    ensures
        pieces(prefix + seq![sep] + part, sep) == pieces(prefix, sep).push(part),
        pieces(part, sep) == seq![part],
{
    lemma_last_position(prefix, sep, part);
    let whole = prefix + seq![sep] + part;
    assert(whole.subrange(0, prefix.len() as int) == prefix);
    assert(whole.subrange(prefix.len() as int + 1, whole.len() as int) == part);
}

/// Joining tokens and splitting the result gives the tokens back, as long as
/// no token is empty or holds the separator.
pub proof fn lemma_split_join(tokens: Seq<Seq<char>>, sep: char)
    requires
        forall|i: int| 0 <= i < tokens.len() ==> (#[trigger] tokens[i]).len() > 0,
        forall|i: int| 0 <= i < tokens.len() ==> !(#[trigger] tokens[i]).contains(sep),
    ensures
        split(join(tokens, seq![sep]), sep) == tokens,
{
    if tokens.len() > 0 {
        lemma_pieces_join_upto(tokens, sep, tokens.len());
        lemma_join_upto_len(tokens, seq![sep], tokens.len());
        assert(tokens.take(tokens.len() as int) == tokens);
    } else {
        assert(tokens =~= Seq::<Seq<char>>::empty());
    }
}

/// The joined text is at least as long as its last token.
pub proof fn lemma_join_upto_len(tokens: Seq<Seq<char>>, sep: Seq<char>, n: nat)
    requires
        1 <= n <= tokens.len(),
    ensures
        join_upto(tokens, sep, n).len() >= tokens[n - 1].len(),
{
}

/// Splitting the first `n` tokens joined gives those tokens back.
pub proof fn lemma_pieces_join_upto(tokens: Seq<Seq<char>>, sep: char, n: nat)
    requires
        1 <= n <= tokens.len(),
        forall|i: int| 0 <= i < tokens.len() ==> !(#[trigger] tokens[i]).contains(sep),
    ensures
        pieces(join_upto(tokens, seq![sep], n), sep) == tokens.take(n as int),
    decreases n,
{
    if n == 1 {
        lemma_pieces_push(Seq::empty(), sep, tokens[0]);
        assert(tokens.take(1) == seq![tokens[0]]);
    } else {
        lemma_pieces_join_upto(tokens, sep, (n - 1) as nat);
        lemma_pieces_push(join_upto(tokens, seq![sep], (n - 1) as nat), sep, tokens[n - 1]);
        assert(tokens.take(n as int) == tokens.take(n - 1).push(tokens[n - 1]));
    }
}

/// Computes [`split`].
pub fn split_text(s: &str, sep: char) -> (tokens: Vec<String>)
    ensures
        views(tokens@) == split(s@, sep),
{
    let chars = chars_of(s);
    let mut tokens: Vec<String> = Vec::new();
    if chars.len() == 0 {
        assert(views(tokens@) =~= Seq::<Seq<char>>::empty());
        return tokens;
    }
    let mut start: usize = 0;
    let mut i: usize = 0;
    while i < chars.len()
        invariant
            start <= i <= chars.len(),
            !chars@.subrange(start as int, i as int).contains(sep),
            start == 0 ==> tokens@.len() == 0,
            start > 0 ==> chars@[start - 1] == sep && views(tokens@) == pieces(
                chars@.subrange(0, start - 1),
                sep,
            ),
        decreases chars.len() - i,
    {
        if chars[i] == sep {
            let token = string_of_range(&chars, start, i);
            proof {
                let part = chars@.subrange(start as int, i as int);
                if start > 0 {
                    let prefix = chars@.subrange(0, start - 1);
                    lemma_pieces_push(prefix, sep, part);
                    assert(prefix + seq![sep] + part == chars@.subrange(0, i as int));
                } else {
                    lemma_pieces_push(Seq::empty(), sep, part);
                    assert(views(tokens@) =~= Seq::<Seq<char>>::empty());
                }
                assert(views(tokens@.push(token)) == views(tokens@).push(token@));
            }
            tokens.push(token);
            start = i + 1;
            assert(chars@.subrange(start as int, start as int) =~= Seq::<char>::empty());
        } else {
            proof {
                let grown = chars@.subrange(start as int, i + 1);
                let part = chars@.subrange(start as int, i as int);
                if grown.contains(sep) {
                    let k = grown.index_of(sep);
                    if k < part.len() {
                        assert(part[k] == sep);
                    }
                }
            }
        }
        i += 1;
    }
    let token = string_of_range(&chars, start, chars.len());
    proof {
        let part = chars@.subrange(start as int, chars.len() as int);
        if start > 0 {
            let prefix = chars@.subrange(0, start - 1);
            lemma_pieces_push(prefix, sep, part);
            assert(prefix + seq![sep] + part == chars@);
        } else {
            lemma_pieces_push(Seq::empty(), sep, part);
            assert(part == chars@);
            assert(views(tokens@) =~= Seq::<Seq<char>>::empty());
        }
        assert(views(tokens@.push(token)) == views(tokens@).push(token@));
    }
    tokens.push(token);
    tokens
}

} // verus!
