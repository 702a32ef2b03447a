use vstd::prelude::*;

use crate::text::{chars_of, is_whitespace_char, is_ws, join, join_chars, split_words, string_from_chars, words};

verus! {

/// FTS5 full-text search with Porter stemming and BM25 ranking.
///
/// The query preparation is here; the database query itself runs in the
/// application layer.
pub struct FtsSearch;

/// The characters FTS5 reads as query syntax (other than `-`).
pub open spec fn is_fts_special(c: char) -> bool {
    c == '*' || c == '"' || c == '(' || c == ')' || c == ':' || c == '^' || c == '{' || c == '}'
        || c == '+' || c == '~' || c == '?'
}

/// The first pass of sanitizing, reading the query from left to right:
/// syntax characters become spaces; a `-` that would start a word (nothing,
/// or whitespace, precedes it in the output) is the NOT operator and becomes
/// a space, while a hyphen inside a word stays.
pub open spec fn sanitize_pass(q: Seq<char>) -> Seq<char>
    decreases q.len(),
{
    if q.len() == 0 {
        seq![]
    } else {
        let r = sanitize_pass(q.drop_last());
        let c = q.last();
        if is_fts_special(c) {
            r.push(' ')
        } else if c == '-' {
            if r.len() == 0 || is_ws(r.last()) {
                r.push(' ')
            } else {
                r.push('-')
            }
        } else {
            r.push(c)
        }
    }
}

/// The sanitized query: the words of the first pass, joined by single spaces.
pub open spec fn sanitize_spec(q: Seq<char>) -> Seq<char> {
    join(words(sanitize_pass(q)), seq![' '])
}

/// Sanitize a query string for FTS5: remove characters that FTS5 interprets
/// as syntax (so user input cannot cause syntax errors), and collapse
/// whitespace to single spaces.
pub fn sanitize_fts5_query(query: &str) -> (r: String)
    ensures
        r@ == sanitize_spec(query@),
{
    let q = chars_of(query);
    let mut pass: Vec<char> = Vec::new();
    let mut i: usize = 0;
    while i < q.len()
        invariant
            i <= q.len(),
            q@ == query@,
            pass@ == sanitize_pass(q@.subrange(0, i as int)),
        decreases q.len() - i,
    {
        let ghost pre = q@.subrange(0, i as int);
        let ghost post = q@.subrange(0, i + 1);
        assert(post.drop_last() =~= pre);
        assert(post.last() == q@[i as int]);
        let c = q[i];
        if c == '*' || c == '"' || c == '(' || c == ')' || c == ':' || c == '^' || c == '{' || c
            == '}' || c == '+' || c == '~' || c == '?' {
            pass.push(' ');
        } else if c == '-' {
            if pass.len() == 0 || is_whitespace_char(pass[pass.len() - 1]) {
                pass.push(' ');
            } else {
                pass.push('-');
            }
        } else {
            pass.push(c);
        }
        i = i + 1;
    }
    assert(q@.subrange(0, q.len() as int) =~= query@);
    let ws = split_words(&pass);
    let mut sep: Vec<char> = Vec::new();
    sep.push(' ');
    assert(sep@ =~= seq![' ']);
    let joined = join_chars(&ws, &sep);
    string_from_chars(&joined)
}

/// Whether a text is collapsed: no whitespace but single spaces, and none
/// at either end.
pub open spec fn is_collapsed(t: Seq<char>) -> bool {
    &&& forall|i: int| 0 <= i < t.len() ==> (t[i] == ' ' || !is_ws(#[trigger] t[i]))
    &&& (t.len() > 0 ==> !is_ws(t[0]) && !is_ws(t.last()))
    &&& forall|i: int| 0 <= i < t.len() - 1 ==> !(#[trigger] t[i] == ' ' && t[i + 1] == ' ')
}

/// The first pass leaves no syntax character.
pub proof fn lemma_pass_no_special(q: Seq<char>)
    ensures
        forall|i: int| 0 <= i < sanitize_pass(q).len() ==> !is_fts_special(#[trigger] sanitize_pass(q)[i]),
        sanitize_pass(q).len() == q.len(),
    decreases q.len(),
{
    if q.len() > 0 {
        lemma_pass_no_special(q.drop_last());
    }
}

/// A text that ends in a character other than whitespace has a word.
pub proof fn lemma_words_nonempty(t: Seq<char>)
    requires
        t.len() > 0,
        !is_ws(t.last()),
    ensures
        words(t).len() > 0,
    decreases t.len(),
{
    let u = t.drop_last();
    if u.len() > 0 && !is_ws(u.last()) {
        lemma_words_nonempty(u);
    }
}

/// Every word is non-empty, holds no whitespace, and holds only characters
/// of the text.
pub proof fn lemma_words_props(s: Seq<char>)
    ensures
        forall|k: int|
            0 <= k < words(s).len() ==> (#[trigger] words(s)[k]).len() > 0 && forall|j: int|
                0 <= j < words(s)[k].len() ==> !is_ws(#[trigger] words(s)[k][j]) && s.contains(
                    words(s)[k][j],
                ),
    decreases s.len(),
{
    if s.len() > 0 {
        let t = s.drop_last();
        let c = s.last();
        lemma_words_props(t);
        assert(s[s.len() - 1] == c);
        assert forall|x: char| t.contains(x) implies s.contains(x) by {
            let i = choose|i: int| 0 <= i < t.len() && t[i] == x;
            assert(s[i] == x);
        }
        let w = words(t);
        let ws = words(s);
        assert forall|k: int| 0 <= k < ws.len() implies (#[trigger] ws[k]).len() > 0 && forall|j: int|
            0 <= j < ws[k].len() ==> !is_ws(#[trigger] ws[k][j]) && s.contains(ws[k][j]) by {
            if is_ws(c) {
                assert(ws[k] == w[k]);
            } else if t.len() > 0 && !is_ws(t.last()) {
                lemma_words_nonempty(t);
                if k < w.len() - 1 {
                    assert(ws[k] == w[k]);
                } else {
                    assert(ws[k] == w.last().push(c));
                    assert(w.last() == w[w.len() - 1]);
                    assert forall|j: int| 0 <= j < ws[k].len() implies !is_ws(#[trigger] ws[k][j]) && s.contains(
                        ws[k][j],
                    ) by {
                        if j < w.last().len() {
                            assert(ws[k][j] == w[w.len() - 1][j]);
                        }
                    }
                }
            } else {
                if k < w.len() {
                    assert(ws[k] == w[k]);
                } else {
                    assert(ws[k] == seq![c]);
                }
            }
        }
    }
}

/// Words without whitespace, joined by single spaces, give a collapsed
/// text whose other characters come from the words.
pub proof fn lemma_join_collapsed(ws: Seq<Seq<char>>, src: Seq<char>)
    requires
        forall|k: int|
            0 <= k < ws.len() ==> (#[trigger] ws[k]).len() > 0 && forall|j: int|
                0 <= j < ws[k].len() ==> !is_ws(#[trigger] ws[k][j]) && src.contains(ws[k][j]),
    ensures
        is_collapsed(join(ws, seq![' '])),
        forall|i: int|
            0 <= i < join(ws, seq![' ']).len() ==> (#[trigger] join(ws, seq![' '])[i] == ' '
                || src.contains(join(ws, seq![' '])[i])),
        ws.len() > 0 ==> join(ws, seq![' ']).len() > 0,
    decreases ws.len(),
{
    if ws.len() == 1 {
        let w = ws[0];
        assert(join(ws, seq![' ']) == w);
        assert forall|i: int| 0 <= i < w.len() implies (w[i] == ' ' || !is_ws(#[trigger] w[i])) by {}
        assert(!is_ws(w[w.len() - 1]));
    } else if ws.len() > 1 {
        let pre = ws.drop_last();
        assert forall|k: int| 0 <= k < pre.len() implies (#[trigger] pre[k]).len() > 0 && forall|j: int|
            0 <= j < pre[k].len() ==> !is_ws(#[trigger] pre[k][j]) && src.contains(pre[k][j]) by {
            assert(pre[k] == ws[k]);
        }
        lemma_join_collapsed(pre, src);
        let a = join(pre, seq![' ']);
        let w = ws.last();
        let t = join(ws, seq![' ']);
        assert(w == ws[ws.len() - 1]);
        assert(t == a + seq![' '] + w);
        assert(t[0] == a[0]);
        assert(t.last() == w[w.len() - 1]);
        assert forall|i: int| 0 <= i < t.len() implies (t[i] == ' ' || !is_ws(#[trigger] t[i])) && (t[i]
            == ' ' || src.contains(t[i])) by {
            if i < a.len() {
                assert(t[i] == a[i]);
            } else if i > a.len() {
                assert(t[i] == w[i - a.len() - 1]);
            }
        }
        assert forall|i: int| 0 <= i < t.len() - 1 implies !(#[trigger] t[i] == ' ' && t[i + 1] == ' ') by {
            if i < a.len() - 1 {
                assert(t[i] == a[i] && t[i + 1] == a[i + 1]);
            } else if i == a.len() - 1 {
                assert(t[i] == a.last());
            } else if i == a.len() {
                assert(t[i + 1] == w[0]);
            } else {
                assert(t[i] == w[i - a.len() - 1] && t[i + 1] == w[i - a.len()]);
            }
        }
    }
}

/// A sanitized query holds no FTS5 syntax character but the hyphen, and its
/// whitespace is collapsed: single spaces between words, none at the ends.
pub proof fn lemma_sanitize_clean(q: Seq<char>)
    ensures
        forall|i: int| 0 <= i < sanitize_spec(q).len() ==> !is_fts_special(#[trigger] sanitize_spec(q)[i]),
        is_collapsed(sanitize_spec(q)),
{
    let p = sanitize_pass(q);
    lemma_pass_no_special(q);
    lemma_words_props(p);
    lemma_join_collapsed(words(p), p);
    let r = sanitize_spec(q);
    assert forall|i: int| 0 <= i < r.len() implies !is_fts_special(#[trigger] r[i]) by {
        if r[i] != ' ' {
            assert(p.contains(r[i]));
            let j = choose|j: int| 0 <= j < p.len() && p[j] == r[i];
            assert(!is_fts_special(p[j]));
        }
    }
}

/// A sanitized query holds none of the FTS5 syntax characters `*`, `"`,
/// `(`, `)`, `:`, `^`, `{`, `}`, `+`, `~` and `?`.
pub proof fn lemma_sanitize_no_syntax_chars(q: Seq<char>)
    ensures
        forall|i: int|
            0 <= i < sanitize_spec(q).len() ==> {
                let c = #[trigger] sanitize_spec(q)[i];
                &&& c != '*' && c != '"' && c != '(' && c != ')' && c != ':' && c != '^'
                &&& c != '{' && c != '}' && c != '+' && c != '~' && c != '?'
            },
{
    lemma_sanitize_clean(q);
}

/// Every `-` of `s` follows a character that is not whitespace: no
/// whitespace-separated token of `s` begins with `-`.
pub open spec fn minus_inside_words(s: Seq<char>) -> bool {
    forall|i: int| 0 <= i < s.len() && #[trigger] s[i] == '-' ==> i > 0 && !is_ws(s[i - 1])
}

/// The first pass keeps a `-` only after a character other than whitespace.
pub proof fn lemma_pass_minus(q: Seq<char>)
    ensures
        minus_inside_words(sanitize_pass(q)),
    decreases q.len(),
{
    if q.len() > 0 {
        lemma_pass_minus(q.drop_last());
        let p = sanitize_pass(q.drop_last());
        let r = sanitize_pass(q);
        assert forall|i: int| 0 <= i < r.len() && #[trigger] r[i] == '-' implies i > 0 && !is_ws(r[i - 1]) by {
            if i < p.len() {
                assert(r[i] == p[i]);
                if i > 0 {
                    assert(r[i - 1] == p[i - 1]);
                }
            } else {
                assert(p.len() > 0 && !is_ws(p.last()));
                assert(r[i - 1] == p[p.len() - 1]);
            }
        }
    }
}

/// A prefix keeps the property that every `-` follows a non-whitespace character.
proof fn lemma_minus_prefix(s: Seq<char>)
    requires
        s.len() > 0,
        minus_inside_words(s),
    ensures
        minus_inside_words(s.drop_last()),
{
    let t = s.drop_last();
    assert forall|i: int| 0 <= i < t.len() && #[trigger] t[i] == '-' implies i > 0 && !is_ws(t[i - 1]) by {
        assert(s[i] == t[i]);
        if i > 0 {
            assert(s[i - 1] == t[i - 1]);
        }
    }
}

/// When every `-` follows a non-whitespace character, no word begins with `-`.
pub proof fn lemma_words_no_leading_minus(s: Seq<char>)
    requires
        minus_inside_words(s),
    ensures
        forall|k: int| 0 <= k < words(s).len() ==> (#[trigger] words(s)[k])[0] != '-',
    decreases s.len(),
{
    if s.len() > 0 {
        let t = s.drop_last();
        let c = s.last();
        lemma_minus_prefix(s);
        lemma_words_no_leading_minus(t);
        lemma_words_props(t);
        let w = words(t);
        let ws = words(s);
        assert forall|k: int| 0 <= k < ws.len() implies (#[trigger] ws[k])[0] != '-' by {
            if is_ws(c) {
                assert(ws[k] == w[k]);
            } else if t.len() > 0 && !is_ws(t.last()) {
                lemma_words_nonempty(t);
                if k < w.len() - 1 {
                    assert(ws[k] == w[k]);
                } else {
                    assert(ws[k] == w[w.len() - 1].push(c));
                    assert(w[w.len() - 1].len() > 0);
                    assert(ws[k][0] == w[w.len() - 1][0]);
                }
            } else {
                if k < w.len() {
                    assert(ws[k] == w[k]);
                } else {
                    assert(ws[k] == seq![c]);
                    assert(s[s.len() - 1] == c);
                    if c == '-' {
                        assert(s.len() - 1 > 0 && !is_ws(s[s.len() - 2]));
                        assert(t.last() == s[s.len() - 2]);
                    }
                }
            }
        }
    }
}

/// Words without whitespace and not beginning with `-`, joined by single
/// spaces, give a text in which every `-` follows a non-whitespace character.
pub proof fn lemma_join_minus(ws: Seq<Seq<char>>)
    requires
        forall|k: int|
            0 <= k < ws.len() ==> (#[trigger] ws[k]).len() > 0 && ws[k][0] != '-' && forall|j: int|
                0 <= j < ws[k].len() ==> !is_ws(#[trigger] ws[k][j]),
    ensures
        minus_inside_words(join(ws, seq![' '])),
        ws.len() > 0 ==> join(ws, seq![' ']).len() > 0 && !is_ws(join(ws, seq![' ']).last()),
    decreases ws.len(),
{
    if ws.len() == 1 {
        let w = ws[0];
        assert(join(ws, seq![' ']) == w);
        assert forall|i: int| 0 <= i < w.len() && #[trigger] w[i] == '-' implies i > 0 && !is_ws(w[i - 1]) by {
            if i > 0 {
                assert(!is_ws(w[i - 1]));
            }
        }
        assert(!is_ws(w[w.len() - 1]));
    } else if ws.len() > 1 {
        let pre = ws.drop_last();
        assert forall|k: int|
            0 <= k < pre.len() implies (#[trigger] pre[k]).len() > 0 && pre[k][0] != '-' && forall|j: int|
                0 <= j < pre[k].len() ==> !is_ws(#[trigger] pre[k][j]) by {
            assert(pre[k] == ws[k]);
        }
        lemma_join_minus(pre);
        let a = join(pre, seq![' ']);
        let w = ws.last();
        let t = join(ws, seq![' ']);
        assert(w == ws[ws.len() - 1]);
        assert(t == a + seq![' '] + w);
        assert(t.last() == w[w.len() - 1]);
        assert forall|i: int| 0 <= i < t.len() && #[trigger] t[i] == '-' implies i > 0 && !is_ws(t[i - 1]) by {
            if i < a.len() {
                assert(t[i] == a[i]);
                if i > 0 {
                    assert(t[i - 1] == a[i - 1]);
                }
            } else if i == a.len() {
                assert(t[i] == ' ');
            } else if i == a.len() + 1 {
                assert(t[i] == w[0]);
            } else {
                assert(t[i] == w[i - a.len() - 1]);
                assert(t[i - 1] == w[i - a.len() - 2]);
            }
        }
    }
}

/// The NOT operator never survives sanitizing: no word of the first pass,
/// and so no space-separated token of the sanitized query, begins with `-`,
/// while a hyphen inside a word is kept.
pub proof fn lemma_sanitize_no_leading_minus(q: Seq<char>)
    ensures
        forall|k: int|
            0 <= k < words(sanitize_pass(q)).len() ==> (#[trigger] words(sanitize_pass(q))[k])[0] != '-',
        minus_inside_words(sanitize_spec(q)),
{
    let p = sanitize_pass(q);
    lemma_pass_minus(q);
    lemma_words_no_leading_minus(p);
    lemma_words_props(p);
    lemma_join_minus(words(p));
}

/// A text free of syntax characters, whose every `-` follows a
/// non-whitespace character, passes the first pass unchanged.
proof fn lemma_pass_identity(s: Seq<char>)
    requires
        forall|i: int| 0 <= i < s.len() ==> !is_fts_special(#[trigger] s[i]),
        minus_inside_words(s),
    ensures
        sanitize_pass(s) == s,
    decreases s.len(),
{
    if s.len() > 0 {
        let t = s.drop_last();
        lemma_minus_prefix(s);
        assert forall|i: int| 0 <= i < t.len() implies !is_fts_special(#[trigger] t[i]) by {
            assert(t[i] == s[i]);
        }
        lemma_pass_identity(t);
        assert(!is_fts_special(s[s.len() - 1]));
        if s.last() == '-' {
            assert(s[s.len() - 1] == '-');
            assert(t.last() == s[s.len() - 2]);
        }
        assert(sanitize_pass(s) =~= s);
    }
}

/// Extending the last word by a character extends the joined text by it.
proof fn lemma_join_push_last(ws: Seq<Seq<char>>, c: char)
    requires
        ws.len() > 0,
    ensures
        join(ws.update(ws.len() - 1, ws.last().push(c)), seq![' ']) == join(ws, seq![' ']).push(c),
{
    let u = ws.update(ws.len() - 1, ws.last().push(c));
    if ws.len() == 1 {
        assert(u[0] == ws[0].push(c));
    } else {
        assert(u.drop_last() =~= ws.drop_last());
        assert(u.last() == ws.last().push(c));
        assert(join(u, seq![' ']) =~= join(ws, seq![' ']).push(c));
    }
}

/// A collapsed text is the join of its words by single spaces.
pub proof fn lemma_collapsed_is_join_of_words(s: Seq<char>)
    requires
        is_collapsed(s),
    ensures
        join(words(s), seq![' ']) == s,
    decreases s.len(),
{
    if s.len() > 0 {
        let t = s.drop_last();
        let c = s.last();
        assert(!is_ws(s[s.len() - 1]));
        if t.len() == 0 {
            assert(words(t) =~= Seq::<Seq<char>>::empty());
            assert(words(s) =~= seq![seq![c]]);
            assert(s =~= seq![c]);
        } else if !is_ws(t.last()) {
            assert(t.last() == s[s.len() - 2]);
            assert(is_collapsed(t)) by {
                assert(t[0] == s[0]);
                assert forall|i: int| 0 <= i < t.len() implies (t[i] == ' ' || !is_ws(#[trigger] t[i])) by {
                    assert(t[i] == s[i]);
                }
                assert forall|i: int| 0 <= i < t.len() - 1 implies !(#[trigger] t[i] == ' ' && t[i + 1] == ' ') by {
                    assert(t[i] == s[i] && t[i + 1] == s[i + 1]);
                }
            }
            lemma_collapsed_is_join_of_words(t);
            lemma_words_nonempty(t);
            lemma_join_push_last(words(t), c);
            assert(s =~= t.push(c));
        } else {
            assert(t.last() == s[s.len() - 2]);
            assert(s[s.len() - 2] == ' ');
            assert(s.len() >= 3) by {
                if s.len() == 2 {
                    assert(s[0] == ' ');
                }
            }
            let u = t.drop_last();
            assert(u.last() == s[s.len() - 3]);
            assert(!is_ws(u.last())) by {
                assert(!(s[s.len() - 3] == ' ' && s[s.len() - 2] == ' '));
            }
            assert(is_collapsed(u)) by {
                assert(u[0] == s[0]);
                assert forall|i: int| 0 <= i < u.len() implies (u[i] == ' ' || !is_ws(#[trigger] u[i])) by {
                    assert(u[i] == s[i]);
                }
                assert forall|i: int| 0 <= i < u.len() - 1 implies !(#[trigger] u[i] == ' ' && u[i + 1] == ' ') by {
                    assert(u[i] == s[i] && u[i + 1] == s[i + 1]);
                }
            }
            lemma_collapsed_is_join_of_words(u);
            lemma_words_nonempty(u);
            assert(t.drop_last() == u);
            assert(words(t) == words(u));
            assert(words(s) == words(u).push(seq![c]));
            assert(words(u).push(seq![c]).drop_last() =~= words(u));
            assert(s =~= u + seq![' '] + seq![c]);
        }
    }
}

/// Sanitizing is idempotent: a sanitized query sanitizes to itself.
pub proof fn lemma_sanitize_idempotent(q: Seq<char>)
    ensures
        sanitize_spec(sanitize_spec(q)) == sanitize_spec(q),
{
    let r = sanitize_spec(q);
    lemma_sanitize_clean(q);
    lemma_sanitize_no_leading_minus(q);
    lemma_pass_identity(r);
    lemma_collapsed_is_join_of_words(r);
}

/// The characters of `s` that are not whitespace, in order.
pub open spec fn non_ws_chars(s: Seq<char>) -> Seq<char>
    decreases s.len(),
{
    if s.len() == 0 {
        seq![]
    } else if is_ws(s.last()) {
        non_ws_chars(s.drop_last())
    } else {
        non_ws_chars(s.drop_last()).push(s.last())
    }
}

/// Whether `a` is a subsequence of `b`: its characters occur in `b` in the
/// same order, at increasing positions.
pub open spec fn is_subsequence(a: Seq<char>, b: Seq<char>) -> bool {
    exists|idx: Seq<int>|
        #![trigger idx.len()]
        idx.len() == a.len() && (forall|i: int|
            0 <= i < idx.len() ==> 0 <= #[trigger] idx[i] < b.len() && b[idx[i]] == a[i]) && (forall|
            i: int,
            j: int,
        | 0 <= i < j < idx.len() ==> #[trigger] idx[i] < #[trigger] idx[j])
}

/// The non-whitespace characters of a concatenation are those of its parts.
proof fn lemma_non_ws_concat(a: Seq<char>, b: Seq<char>)
    ensures
        non_ws_chars(a + b) == non_ws_chars(a) + non_ws_chars(b),
    decreases b.len(),
{
    if b.len() == 0 {
        assert(a + b =~= a);
    } else {
        lemma_non_ws_concat(a, b.drop_last());
        assert((a + b).drop_last() =~= a + b.drop_last());
        assert((a + b).last() == b.last());
        if !is_ws(b.last()) {
            assert(non_ws_chars(a) + non_ws_chars(b.drop_last()).push(b.last()) =~= (non_ws_chars(a)
                + non_ws_chars(b.drop_last())).push(b.last()));
        }
    }
}

/// Joining the words of a text by single spaces keeps its non-whitespace
/// characters.
proof fn lemma_words_join_non_ws(p: Seq<char>)
    ensures
        non_ws_chars(join(words(p), seq![' '])) == non_ws_chars(p),
    decreases p.len(),
{
    if p.len() > 0 {
        let t = p.drop_last();
        let c = p.last();
        let w = words(t);
        lemma_words_join_non_ws(t);
        if is_ws(c) {
        } else if t.len() > 0 && !is_ws(t.last()) {
            lemma_words_nonempty(t);
            lemma_join_push_last(w, c);
            assert(join(w, seq![' ']).push(c).drop_last() =~= join(w, seq![' ']));
        } else {
            let wp = w.push(seq![c]);
            assert(wp.drop_last() =~= w);
            assert(wp.last() == seq![c]);
            if w.len() == 0 {
                assert(join(wp, seq![' ']) == seq![c]);
                assert(seq![c].drop_last() =~= Seq::<char>::empty());
            } else {
                let j = join(w, seq![' ']);
                assert(join(wp, seq![' ']) == j + seq![' '] + seq![c]);
                lemma_non_ws_concat(j + seq![' '], seq![c]);
                lemma_non_ws_concat(j, seq![' ']);
                assert(seq![' '].drop_last() =~= Seq::<char>::empty());
                assert(seq![c].drop_last() =~= Seq::<char>::empty());
                assert(seq![c].last() == c);
                assert(non_ws_chars(Seq::<char>::empty()) == Seq::<char>::empty());
                assert(non_ws_chars(seq![c]) =~= Seq::<char>::empty().push(c));
                assert(non_ws_chars(j) + non_ws_chars(seq![' ']) =~= non_ws_chars(j));
            }
        }
    }
}

/// The first pass keeps each non-whitespace character at its position, or
/// turns it into a space: its non-whitespace characters come from the query,
/// at the positions `idx`.
proof fn lemma_pass_positions(q: Seq<char>) -> (idx: Seq<int>)
    ensures
        idx.len() == non_ws_chars(sanitize_pass(q)).len(),
        forall|i: int|
            0 <= i < idx.len() ==> 0 <= #[trigger] idx[i] < q.len() && q[idx[i]] == non_ws_chars(
                sanitize_pass(q),
            )[i],
        forall|i: int, j: int| 0 <= i < j < idx.len() ==> #[trigger] idx[i] < #[trigger] idx[j],
    decreases q.len(),
{
    if q.len() == 0 {
        seq![]
    } else {
        let t = q.drop_last();
        let prev = lemma_pass_positions(t);
        lemma_pass_no_special(t);
        let p = sanitize_pass(q);
        let pt = sanitize_pass(t);
        assert(p.drop_last() =~= pt);
        if is_ws(p.last()) {
            prev
        } else {
            assert(p.last() == q.last());
            let idx = prev.push(q.len() - 1);
            assert forall|i: int| 0 <= i < idx.len() implies 0 <= #[trigger] idx[i] < q.len() && q[idx[i]]
                == non_ws_chars(p)[i] by {
                if i < prev.len() {
                    assert(idx[i] == prev[i]);
                    assert(q[prev[i]] == t[prev[i]]);
                }
            }
            idx
        }
    }
}

/// What sanitizing keeps of a query, apart from the spaces between words,
/// is a subsequence of the query: it only removes characters and puts
/// spaces between the words.
pub proof fn lemma_sanitize_subsequence(q: Seq<char>)
    ensures
        is_subsequence(non_ws_chars(sanitize_spec(q)), q),
{
    let idx = lemma_pass_positions(q);
    lemma_words_join_non_ws(sanitize_pass(q));
    assert(idx.len() == non_ws_chars(sanitize_spec(q)).len());
}

impl FtsSearch {
    /// The text handed to FTS5 `MATCH` for a user query, or `None` when the
    /// query is blank or holds nothing but syntax characters, in which case
    /// the search returns no results without touching the database.
    pub fn prepare_query(query: &str) -> (r: Option<String>)
        ensures
            sanitize_spec(query@).len() == 0 ==> r is None,
            sanitize_spec(query@).len() > 0 ==> (r matches Some(s) && s@ == sanitize_spec(query@)),
    {
        let s = sanitize_fts5_query(query);
        if s.as_str().is_empty() {
            None
        } else {
            Some(s)
        }
    }

    /// The number of candidates fetched for a fused search: `limit` times
    /// the over-fetch multiplier.
    pub fn overfetch_limit(limit: usize, multiplier: usize) -> (n: usize)
        requires
            limit * multiplier <= usize::MAX,
        ensures
            n == limit * multiplier,
    {
        limit * multiplier
    }
}

} // verus!
