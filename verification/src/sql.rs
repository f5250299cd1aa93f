//! Table-name substitution: reading a query as a row of pieces and replacing the
//! table names that stand after `FROM`, `JOIN` or a comma by references to files.
//!
//! A piece is a word (a maximal run of letters, digits and underscores), a quoted
//! region (from a `'` or `"` to the next one, or to the end), a comma, one
//! whitespace character, or one other character. A word is a table reference when
//! the piece before it, whitespace aside, is a comma or the word `FROM` or `JOIN`,
//! and the word is a table name; letter case does not matter in either.

use vstd::prelude::*;
use crate::schema::{table_file, table_file_of, table_index, table_name, table_name_of, TABLE_COUNT};
use crate::text::{chars_of, lower, push_range, to_lower_range, vec_equal};

verus! {

/// Letters, digits and the underscore: what words are made of.
pub open spec fn is_word_char(c: char) -> bool {
    ('a' <= c <= 'z') || ('A' <= c <= 'Z') || ('0' <= c <= '9') || c == '_'
}

/// Blank, tab, line feed and carriage return.
pub open spec fn is_space(c: char) -> bool {
    c == ' ' || c == '\t' || c == '\n' || c == '\r'
}

/// The two characters that open and close a quoted region.
pub open spec fn is_quote(c: char) -> bool {
    c == '\'' || c == '"'
}

/// The end of the run of word characters that begins at `i`.
pub open spec fn word_end(s: Seq<char>, i: int) -> int
    decreases s.len() - i,
{
    if 0 <= i < s.len() && is_word_char(s[i]) {
        word_end(s, i + 1)
    } else {
        i
    }
}

/// The position after the first `q` at or after `j`, or the end of `s` without one.
pub open spec fn quote_end(s: Seq<char>, q: char, j: int) -> int
    decreases s.len() - j,
{
    if 0 <= j < s.len() {
        if s[j] == q {
            j + 1
        } else {
            quote_end(s, q, j + 1)
        }
    } else {
        s.len() as int
    }
}

/// `word_end` moves forward only, and stays inside the text.
pub proof fn lemma_word_end_bounds(s: Seq<char>, i: int)
    requires
        0 <= i <= s.len(),
    ensures
        i <= word_end(s, i) <= s.len(),
    decreases s.len() - i,
{
    if i < s.len() && is_word_char(s[i]) {
        lemma_word_end_bounds(s, i + 1);
    }
}

/// `quote_end` moves forward only, and stays inside the text.
pub proof fn lemma_quote_end_bounds(s: Seq<char>, q: char, j: int)
    requires
        0 <= j <= s.len(),
    ensures
        j <= quote_end(s, q, j) <= s.len(),
    decreases s.len() - j,
{
    if j < s.len() && s[j] != q {
        lemma_quote_end_bounds(s, q, j + 1);
    }
}

/// One piece of a query.
pub enum Piece {
    Word(Seq<char>),
    Quoted(Seq<char>),
    Space(char),
    Comma,
    Other(char),
}

/// The characters a piece was read from.
pub open spec fn piece_text(p: Piece) -> Seq<char> {
    match p {
        Piece::Word(w) => w,
        Piece::Quoted(q) => q,
        Piece::Space(c) => seq![c],
        Piece::Comma => seq![','],
        Piece::Other(c) => seq![c],
    }
}

/// Where the piece that begins at `i` ends.
pub open spec fn piece_end(s: Seq<char>, i: int) -> int {
    if is_quote(s[i]) {
        quote_end(s, s[i], i + 1)
    } else if is_word_char(s[i]) {
        word_end(s, i + 1)
    } else {
        i + 1
    }
}

/// The piece that begins at `i`.
pub open spec fn piece_at(s: Seq<char>, i: int) -> Piece {
    let c = s[i];
    if is_quote(c) {
        Piece::Quoted(s.subrange(i, piece_end(s, i)))
    } else if is_word_char(c) {
        Piece::Word(s.subrange(i, piece_end(s, i)))
    } else if c == ',' {
        Piece::Comma
    } else if is_space(c) {
        Piece::Space(c)
    } else {
        Piece::Other(c)
    }
}

/// Every piece begins before it ends, inside the text.
pub proof fn lemma_piece_end_bounds(s: Seq<char>, i: int)
    requires
        0 <= i < s.len(),
    ensures
        i < piece_end(s, i) <= s.len(),
{
    lemma_quote_end_bounds(s, s[i], i + 1);
    lemma_word_end_bounds(s, i + 1);
}

/// The pieces of `s` from position `i` on.
pub open spec fn lex_from(s: Seq<char>, i: int) -> Seq<Piece>
    decreases s.len() - i,
{
    if 0 <= i < s.len() {
        proof {
            lemma_piece_end_bounds(s, i);
        }
        seq![piece_at(s, i)] + lex_from(s, piece_end(s, i))
    } else {
        Seq::empty()
    }
}

/// The pieces of a query.
pub open spec fn lex(s: Seq<char>) -> Seq<Piece> {
    lex_from(s, 0)
}

/// The characters of a row of pieces, put together again.
pub open spec fn unlex(ps: Seq<Piece>) -> Seq<char>
    decreases ps.len(),
{
    if ps.len() == 0 {
        Seq::empty()
    } else {
        piece_text(ps[0]) + unlex(ps.drop_first())
    }
}

/// Whether `w` is `FROM` or `JOIN`, in any letter case.
pub open spec fn is_intro_word(w: Seq<char>) -> bool {
    lower(w) == "from"@ || lower(w) == "join"@
}

/// The table that piece `p` refers to, where `intro` says that a comma, `FROM` or
/// `JOIN` stands before it.
pub open spec fn reference_of(p: Piece, intro: bool) -> Option<int> {
    match p {
        Piece::Word(w) => if intro {
            table_index(lower(w))
        } else {
            None
        },
        _ => None,
    }
}

/// Whether the piece after `p` stands behind a comma, `FROM` or `JOIN`.
pub open spec fn intro_after(p: Piece, intro: bool) -> bool {
    match p {
        Piece::Word(w) => reference_of(p, intro) is None && is_intro_word(w),
        Piece::Quoted(_) => false,
        Piece::Space(_) => intro,
        Piece::Comma => true,
        Piece::Other(_) => false,
    }
}

/// `s` with every backslash turned into a slash.
pub open spec fn slashed(s: Seq<char>) -> Seq<char> {
    s.map_values(
        |c: char|
            if c == '\\' {
                '/'
            } else {
                c
            },
    )
}

/// The path of `file` inside directory `dir`, written with slashes.
pub open spec fn path_in(dir: Seq<char>, file: Seq<char>) -> Seq<char> {
    if dir.len() == 0 {
        slashed(file)
    } else if dir.last() == '/' {
        slashed(dir + file)
    } else {
        slashed(dir + seq!['/'] + file)
    }
}

/// `s` with every single quote doubled, as inside an SQL string literal.
pub open spec fn quote_doubled(s: Seq<char>) -> Seq<char>
    decreases s.len(),
{
    if s.len() == 0 {
        Seq::empty()
    } else if s.last() == '\'' {
        quote_doubled(s.drop_last()) + seq!['\'', '\'']
    } else {
        quote_doubled(s.drop_last()).push(s.last())
    }
}

/// What stands in a query in place of the name of table `k`.
pub open spec fn table_reference(dir: Seq<char>, k: int) -> Seq<char> {
    "read_parquet('"@ + quote_doubled(path_in(dir, table_file(k))) + "')"@
}

/// What a piece becomes in the rewritten query.
pub open spec fn piece_output(p: Piece, intro: bool, dir: Seq<char>) -> Seq<char> {
    match reference_of(p, intro) {
        Some(k) => table_reference(dir, k),
        None => piece_text(p),
    }
}

/// The rewritten text of a row of pieces.
pub open spec fn rewrite_pieces(ps: Seq<Piece>, intro: bool, dir: Seq<char>) -> Seq<char>
    decreases ps.len(),
{
    if ps.len() == 0 {
        Seq::empty()
    } else {
        piece_output(ps[0], intro, dir) + rewrite_pieces(
            ps.drop_first(),
            intro_after(ps[0], intro),
            dir,
        )
    }
}

/// Whether a row of pieces refers to table `k`.
pub open spec fn mentions(ps: Seq<Piece>, intro: bool, k: int) -> bool
    decreases ps.len(),
{
    if ps.len() == 0 {
        false
    } else {
        reference_of(ps[0], intro) == Some(k) || mentions(
            ps.drop_first(),
            intro_after(ps[0], intro),
            k,
        )
    }
}

/// The query `sql` with each table reference replaced by the file of that table in `dir`.
pub open spec fn rewritten(sql: Seq<char>, dir: Seq<char>) -> Seq<char> {
    rewrite_pieces(lex(sql), false, dir)
}

/// Whether the query `sql` refers to table `k`.
pub open spec fn references(sql: Seq<char>, k: int) -> bool {
    mentions(lex(sql), false, k)
}

/// How the rewriting of the pieces from `i` on begins with the piece at `i`.
pub proof fn lemma_rewrite_step(s: Seq<char>, i: int, intro: bool, dir: Seq<char>)
    requires
        0 <= i < s.len(),
    ensures
        rewrite_pieces(lex_from(s, i), intro, dir) == piece_output(piece_at(s, i), intro, dir)
            + rewrite_pieces(lex_from(s, piece_end(s, i)), intro_after(piece_at(s, i), intro), dir),
        forall|k: int|
            mentions(lex_from(s, i), intro, k) == (reference_of(piece_at(s, i), intro) == Some(k)
                || #[trigger] mentions(
                lex_from(s, piece_end(s, i)),
                intro_after(piece_at(s, i), intro),
                k,
            )),
{
    let rest = lex_from(s, piece_end(s, i));
    let all = lex_from(s, i);
    assert(all == seq![piece_at(s, i)] + rest);
    assert(all.drop_first() == rest);
}

/// Decides [`is_word_char`].
pub fn word_char(c: char) -> (r: bool)
    ensures
        r == is_word_char(c),
{
    ('a' <= c && c <= 'z') || ('A' <= c && c <= 'Z') || ('0' <= c && c <= '9') || c == '_'
}

/// Finds [`word_end`].
fn scan_word(s: &Vec<char>, from: usize) -> (j: usize)
    requires
        from <= s.len(),
    ensures
        j == word_end(s@, from as int),
        from <= j <= s.len(),
{
    let mut j: usize = from;
    while j < s.len() && word_char(s[j])
        invariant
            from <= j <= s.len(),
            word_end(s@, from as int) == word_end(s@, j as int),
        decreases s.len() - j,
    {
        j += 1;
    }
    j
}

/// Finds [`quote_end`].
fn scan_quote(s: &Vec<char>, q: char, from: usize) -> (j: usize)
    requires
        from <= s.len(),
    ensures
        j == quote_end(s@, q, from as int),
        from <= j <= s.len(),
{
    let mut j: usize = from;
    while j < s.len()
        invariant
            from <= j <= s.len(),
            quote_end(s@, q, from as int) == quote_end(s@, q, j as int),
        decreases s.len() - j,
    {
        if s[j] == q {
            return j + 1;
        }
        j += 1;
    }
    j
}

/// The table whose name is exactly `word`.
fn table_of(word: &Vec<char>) -> (r: Option<usize>)
    ensures
        match r {
            Some(k) => k < TABLE_COUNT && table_index(word@) == Some(k as int),
            None => table_index(word@) is None,
        },
{
    let mut k: usize = 0;
    while k < TABLE_COUNT
        invariant
            k <= TABLE_COUNT,
            forall|j: int| 0 <= j < k ==> word@ != table_name(j),
        decreases TABLE_COUNT - k,
    {
        let name = chars_of(table_name_of(k));
        if vec_equal(word, &name) {
            return Some(k);
        }
        k += 1;
    }
    None
}

/// Appends `slashed(v)` to `out`.
fn push_slashed(out: &mut Vec<char>, v: &Vec<char>)
    ensures
        final(out)@ == old(out)@ + slashed(v@),
{
    let mut i: usize = 0;
    while i < v.len()
        invariant
            i <= v.len(),
            out@ == old(out)@ + slashed(v@.take(i as int)),
        decreases v.len() - i,
    {
        let c = v[i];
        out.push(if c == '\\' { '/' } else { c });
        i += 1;
        assert(slashed(v@.take(i as int)) == slashed(v@.take(i - 1)).push(slashed(v@)[i - 1]));
    }
    assert(v@.take(v.len() as int) == v@);
}

/// Computes [`path_in`].
pub fn join_path(dir: &Vec<char>, file: &Vec<char>) -> (p: Vec<char>)
    ensures
        p@ == path_in(dir@, file@),
{
    let mut p: Vec<char> = Vec::new();
    push_slashed(&mut p, dir);
    if dir.len() > 0 && dir[dir.len() - 1] != '/' {
        p.push('/');
        push_slashed(&mut p, file);
        assert(p@ == slashed(dir@ + seq!['/'] + file@));
    } else {
        push_slashed(&mut p, file);
        assert(p@ == slashed(dir@ + file@));
        if dir.len() == 0 {
            assert(dir@ + file@ == file@);
        }
    }
    p
}

/// Appends `quote_doubled(v)` to `out`.
pub fn push_quote_doubled(out: &mut String, v: &Vec<char>)
    ensures
        final(out)@ == old(out)@ + quote_doubled(v@),
{
    let mut i: usize = 0;
    while i < v.len()
        invariant
            i <= v.len(),
            out@ == old(out)@ + quote_doubled(v@.take(i as int)),
        decreases v.len() - i,
    {
        let c = v[i];
        if c == '\'' {
            out.push('\'');
        }
        out.push(c);
        i += 1;
        assert(v@.take(i as int).drop_last() == v@.take(i - 1));
    }
    assert(v@.take(v.len() as int) == v@);
}

/// Appends [`table_reference`] of table `k` to `out`.
fn push_table_reference(out: &mut String, dir: &Vec<char>, k: usize)
    requires
        k < TABLE_COUNT,
    ensures
        final(out)@ == old(out)@ + table_reference(dir@, k as int),
{
    let file = chars_of(table_file_of(k));
    let path = join_path(dir, &file);
    out.append("read_parquet('");
    push_quote_doubled(out, &path);
    out.append("')");
}

/// The rewritten query, and for each table whether the query refers to it.
pub fn substitute(sql: &Vec<char>, dir: &Vec<char>) -> (r: (String, Vec<bool>))
    ensures
        r.0@ == rewritten(sql@, dir@),
        r.1.len() == TABLE_COUNT,
        forall|k: int| 0 <= k < TABLE_COUNT ==> r.1[k] == references(sql@, k),
{
    let mut out = String::new();
    let mut used: Vec<bool> = Vec::new();
    while used.len() < TABLE_COUNT
        invariant
            used.len() <= TABLE_COUNT,
            forall|k: int| 0 <= k < used.len() ==> !used[k],
        decreases TABLE_COUNT - used.len(),
    {
        used.push(false);
    }
    let from_word = chars_of("from");
    let join_word = chars_of("join");
    let mut intro = false;
    let mut i: usize = 0;
    while i < sql.len()
        invariant
            i <= sql.len(),
            used.len() == TABLE_COUNT,
            from_word@ == "from"@,
            join_word@ == "join"@,
            rewritten(sql@, dir@) == out@ + rewrite_pieces(lex_from(sql@, i as int), intro, dir@),
            forall|k: int|
                0 <= k < TABLE_COUNT ==> references(sql@, k) == (used[k] || mentions(
                    lex_from(sql@, i as int),
                    intro,
                    k,
                )),
        decreases sql.len() - i,
    {
        let c = sql[i];
        proof {
            lemma_rewrite_step(sql@, i as int, intro, dir@);
            lemma_piece_end_bounds(sql@, i as int);
        }
        let ghost piece = piece_at(sql@, i as int);
        let ghost before = out@;
        let ghost used_before = used@;
        if c == '\'' || c == '"' {
            let j = scan_quote(sql, c, i + 1);
            push_range(&mut out, sql, i, j);
            intro = false;
            i = j;
        } else if word_char(c) {
            let j = scan_word(sql, i + 1);
            let word = to_lower_range(sql, i, j);
            let table = if intro {
                table_of(&word)
            } else {
                None
            };
            match table {
                Some(k) => {
                    push_table_reference(&mut out, dir, k);
                    used.set(k, true);
                    intro = false;
                    assert(reference_of(piece, true) == Some(k as int));
                },
                None => {
                    push_range(&mut out, sql, i, j);
                    intro = vec_equal(&word, &from_word) || vec_equal(&word, &join_word);
                },
            }
            i = j;
        } else {
            out.push(c);
            if c == ',' {
                intro = true;
            } else if c == ' ' || c == '\t' || c == '\n' || c == '\r' {
            } else {
                intro = false;
            }
            i += 1;
        }
    }
    (out, used)
}

/// Lexing loses nothing: the pieces from `i` on, put together, are the text from `i` on.
pub proof fn lemma_unlex_from(s: Seq<char>, i: int)
    requires
        0 <= i <= s.len(),
    ensures
        unlex(lex_from(s, i)) == s.subrange(i, s.len() as int),
    decreases s.len() - i,
{
    if i < s.len() {
        lemma_piece_end_bounds(s, i);
        let j = piece_end(s, i);
        lemma_unlex_from(s, j);
        let all = lex_from(s, i);
        assert(all == seq![piece_at(s, i)] + lex_from(s, j));
        assert(all.drop_first() == lex_from(s, j));
        assert(piece_text(piece_at(s, i)) == s.subrange(i, j));
        assert(s.subrange(i, j) + s.subrange(j, s.len() as int) == s.subrange(i, s.len() as int));
    } else {
        assert(s.subrange(i, s.len() as int) == Seq::<char>::empty());
    }
}

/// The pieces of a query, put together again, are the query.
pub proof fn lemma_lex_is_lossless(sql: Seq<char>)
    ensures
        unlex(lex(sql)) == sql,
{
    lemma_unlex_from(sql, 0);
    assert(sql.subrange(0, sql.len() as int) == sql);
}

/// A row of pieces that refers to no table is rewritten to its own text.
pub proof fn lemma_rewrite_without_reference(ps: Seq<Piece>, intro: bool, dir: Seq<char>)
    requires
        forall|k: int| 0 <= k < TABLE_COUNT ==> !mentions(ps, intro, k),
    ensures
        rewrite_pieces(ps, intro, dir) == unlex(ps),
    decreases ps.len(),
{
    if ps.len() > 0 {
        let rest = ps.drop_first();
        let next = intro_after(ps[0], intro);
        assert forall|k: int| 0 <= k < TABLE_COUNT implies !mentions(rest, next, k) by {
            assert(!mentions(ps, intro, k));
        }
        lemma_rewrite_without_reference(rest, next, dir);
        match reference_of(ps[0], intro) {
            Some(k) => {
                assert(0 <= k < TABLE_COUNT);
                assert(mentions(ps, intro, k));
            },
            None => {},
        }
    }
}

/// A query that refers to no table is left exactly as it is.
pub proof fn lemma_query_without_reference_is_unchanged(sql: Seq<char>, dir: Seq<char>)
    requires
        forall|k: int| 0 <= k < TABLE_COUNT ==> !references(sql, k),
    ensures
        rewritten(sql, dir) == sql,
{
    assert forall|k: int| 0 <= k < TABLE_COUNT implies !mentions(lex(sql), false, k) by {
        assert(!references(sql, k));
    }
    lemma_rewrite_without_reference(lex(sql), false, dir);
    lemma_lex_is_lossless(sql);
}

} // verus!
