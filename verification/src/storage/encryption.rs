use vstd::prelude::*;

use crate::text::{chars_of, hex_of, lemma_hex_len, push_char, push_hex};

verus! {

/// Encryption key types for SQLCipher database encryption.
///
/// The key must be provided before any database operations.
#[derive(Debug, Clone)]
pub enum EncryptionKey {
    /// Raw passphrase: SQLCipher derives the key via PBKDF2.
    Passphrase(String),
    /// Pre-derived raw key bytes (256-bit AES key).
    RawKey([u8; 32]),
}

/// The SQL text of one character of a quoted literal: a single quote is doubled.
pub open spec fn quote_piece(c: char) -> Seq<char> {
    if c == '\'' {
        seq!['\'', '\'']
    } else {
        seq![c]
    }
}

/// `s` with every single quote doubled (`str::replace('\'', "''")`).
pub open spec fn escape_quotes(s: Seq<char>) -> Seq<char>
    decreases s.len(),
{
    if s.len() == 0 {
        seq![]
    } else {
        escape_quotes(s.drop_last()) + quote_piece(s.last())
    }
}

/// Reads the body of a SQL string literal: a doubled quote stands for one quote.
pub open spec fn unescape_quotes(s: Seq<char>) -> Seq<char>
    decreases s.len(),
{
    if s.len() >= 2 && s[0] == '\'' && s[1] == '\'' {
        seq!['\''] + unescape_quotes(s.skip(2))
    } else if s.len() > 0 {
        seq![s[0]] + unescape_quotes(s.skip(1))
    } else {
        seq![]
    }
}

/// The PRAGMA value of a key.
pub open spec fn pragma_value(key: EncryptionKey) -> Seq<char> {
    match key {
        EncryptionKey::Passphrase(p) => seq!['\''] + escape_quotes(p@) + seq!['\''],
        EncryptionKey::RawKey(b) => seq!['"', 'x', '\''] + hex_of(b@) + seq!['\'', '"'],
    }
}

impl EncryptionKey {
    /// Format the key as a PRAGMA statement value.
    ///
    /// A passphrase becomes a quoted SQL literal with its quotes doubled;
    /// raw key bytes become `"x'…'"` with two lowercase hex digits per byte.
    pub fn as_pragma_value(&self) -> (r: String)
        ensures
            r@ == pragma_value(*self),
    {
        match self {
            EncryptionKey::Passphrase(pass) => {
                let v = chars_of(pass.as_str());
                let mut out = String::new();
                push_char(&mut out, '\'');
                let ghost start = out@;
                let mut i: usize = 0;
                while i < v.len()
                    invariant
                        i <= v.len(),
                        v@ == pass@,
                        start == seq!['\''],
                        out@ == start + escape_quotes(v@.subrange(0, i as int)),
                    decreases v.len() - i,
                {
                    let ghost pre = v@.subrange(0, i as int);
                    let ghost post = v@.subrange(0, i + 1);
                    assert(post.drop_last() =~= pre);
                    let c = v[i];
                    push_char(&mut out, c);
                    if c == '\'' {
                        push_char(&mut out, '\'');
                    }
                    assert(out@ =~= start + escape_quotes(post));
                    i = i + 1;
                }
                assert(v@.subrange(0, v.len() as int) =~= pass@);
                push_char(&mut out, '\'');
                assert(out@ =~= pragma_value(*self));
                out
            },
            EncryptionKey::RawKey(bytes) => {
                let mut out = String::new();
                push_char(&mut out, '"');
                push_char(&mut out, 'x');
                push_char(&mut out, '\'');
                push_hex(&mut out, bytes.as_slice());
                push_char(&mut out, '\'');
                push_char(&mut out, '"');
                assert(out@ =~= pragma_value(*self));
                out
            },
        }
    }
}

/// Escaping distributes over concatenation.
pub proof fn lemma_escape_concat(a: Seq<char>, b: Seq<char>)
    ensures
        escape_quotes(a + b) == escape_quotes(a) + escape_quotes(b),
    decreases b.len(),
{
    if b.len() == 0 {
        assert(a + b =~= a);
        assert(escape_quotes(a) + escape_quotes(b) =~= escape_quotes(a));
    } else {
        lemma_escape_concat(a, b.drop_last());
        assert((a + b).drop_last() =~= a + b.drop_last());
        assert((a + b).last() == b.last());
        assert(escape_quotes(a) + escape_quotes(b) =~= escape_quotes(a) + escape_quotes(
            b.drop_last(),
        ) + quote_piece(b.last()));
    }
}

/// Reading back an escaped passphrase gives the passphrase.
pub proof fn lemma_unescape_escape(s: Seq<char>)
    ensures
        unescape_quotes(escape_quotes(s)) == s,
    decreases s.len(),
{
    if s.len() > 0 {
        let rest = s.skip(1);
        assert(s =~= seq![s[0]] + rest);
        lemma_escape_concat(seq![s[0]], rest);
        assert(seq![s[0]].drop_last() =~= Seq::<char>::empty());
        assert(escape_quotes(Seq::<char>::empty()) =~= Seq::<char>::empty());
        assert(seq![s[0]].last() == s[0]);
        assert(escape_quotes(seq![s[0]]) =~= quote_piece(s[0]));
        lemma_unescape_escape(rest);
        let e = escape_quotes(s);
        if s[0] == '\'' {
            assert(e.skip(2) =~= escape_quotes(rest));
        } else {
            assert(e.skip(1) =~= escape_quotes(rest));
        }
        assert(unescape_quotes(e) =~= s);
    } else {
        assert(escape_quotes(s) =~= Seq::<char>::empty());
    }
}

/// The PRAGMA value of a passphrase is a quoted literal that reads back as the
/// passphrase: drop the outer quotes, then read doubled quotes as one.
pub proof fn lemma_passphrase_pragma_reads_back(p: String)
    ensures
        ({
            let v = pragma_value(EncryptionKey::Passphrase(p));
            &&& v.len() >= 2
            &&& v[0] == '\''
            &&& v.last() == '\''
            &&& unescape_quotes(v.subrange(1, v.len() - 1)) == p@
        }),
{
    let v = pragma_value(EncryptionKey::Passphrase(p));
    assert(v.subrange(1, v.len() - 1) =~= escape_quotes(p@));
    lemma_unescape_escape(p@);
}

/// The PRAGMA value of a raw key holds two hex digits per key byte.
pub proof fn lemma_raw_key_pragma_length(b: [u8; 32])
    ensures
        pragma_value(EncryptionKey::RawKey(b)).len() == 69,
{
    lemma_hex_len(b@);
}

} // verus!
