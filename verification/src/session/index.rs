use vstd::prelude::*;

use sha2::Digest;

use crate::text::chars_of;
use crate::text::char_is_alphanumeric;
use crate::text::char_is_whitespace;
use crate::text::hex_lower;
use crate::text::is_alnum;
use crate::text::is_white;
use crate::text::join;
use crate::text::string_from_chars;

verus! {

/// Session metadata kept in the index cache.
#[derive(Clone, Debug)]
pub struct CachedSession {
    pub title: Option<String>,
    pub directory: Option<String>,
    pub timestamp: String,
    pub message_count: i64,
    pub subagent_count: i64,
}

/// One full-text search hit.
#[derive(Clone, Debug)]
pub struct FtsResult {
    pub session_id: String,
    pub title: Option<String>,
    pub directory: Option<String>,
    pub snippet: String,
}

// ── Fingerprints ───────────────────────────────────────────────────

/// The SHA-256 digest of a byte sequence.
pub uninterp spec fn sha256(data: Seq<u8>) -> Seq<u8>;

/// `sha2::Sha256` fed `data`, then finalized: the digest, which is 32 bytes long.
#[verifier::external_body]
fn sha256_digest(data: &[u8]) -> (r: Vec<u8>)
    ensures
        r@ == sha256(data@),
        r@.len() == 32,
{
    let mut hasher = sha2::Sha256::new();
    hasher.update(data);
    hasher.finalize().to_vec()
}

/// `hex::encode`: two lowercase hex digits per byte.
#[verifier::external_body]
fn hex_encode(data: &[u8]) -> (r: String)
    ensures
        r@ == hex_lower(data@),
{
    hex::encode(data)
}

/// The first `n` bytes of `x` in little-endian order.
pub open spec fn le_bytes(x: nat, n: nat) -> Seq<u8>
    decreases n,
{
    if n == 0 {
        Seq::empty()
    } else {
        seq![(x % 256) as u8] + le_bytes(x / 256, (n - 1) as nat)
    }
}

/// `u64::to_le_bytes`, computed.
pub fn u64_le_bytes(x: u64) -> (r: Vec<u8>)
    ensures
        r@ == le_bytes(x as nat, 8),
{
    let mut out: Vec<u8> = Vec::new();
    let mut v = x;
    let mut i: usize = 0;
    while i < 8
        invariant
            i <= 8,
            out@ + le_bytes(v as nat, (8 - i) as nat) == le_bytes(x as nat, 8),
        decreases 8 - i,
    {
        let ghost before = out@;
        out.push((v % 256) as u8);
        proof {
            assert(le_bytes(v as nat, (8 - i) as nat) == seq![(v % 256) as u8] + le_bytes((v / 256) as nat, (8 - i - 1) as nat));
            assert(out@ + le_bytes((v / 256) as nat, (8 - i - 1) as nat) =~= before + le_bytes(v as nat, (8 - i) as nat));
        }
        v = v / 256;
        i = i + 1;
    }
    assert(le_bytes(v as nat, 0) =~= Seq::<u8>::empty());
    assert(out@ =~= out@ + le_bytes(v as nat, 0));
    out
}

/// The fingerprint of a session file with modification time `mtime_secs` (seconds
/// since the Unix epoch) and size `size`: the hex SHA-256 of both, little-endian.
pub open spec fn fingerprint_spec(mtime_secs: u64, size: u64) -> Seq<char> {
    hex_lower(sha256(le_bytes(mtime_secs as nat, 8) + le_bytes(size as nat, 8)))
}

/// Compute a fingerprint for a session file from its modification time and size.
pub fn fingerprint_of(mtime_secs: u64, size: u64) -> (r: String)
    ensures
        r@ == fingerprint_spec(mtime_secs, size),
        r@.len() == 64,
{
    let mut data = u64_le_bytes(mtime_secs);
    let mut b = u64_le_bytes(size);
    data.append(&mut b);
    let digest = sha256_digest(data.as_slice());
    proof {
        lemma_hex_len(digest@);
    }
    hex_encode(digest.as_slice())
}

/// Hex text has two digits per byte.
pub proof fn lemma_hex_len(b: Seq<u8>)
    ensures
        hex_lower(b).len() == 2 * b.len(),
    decreases b.len(),
{
    if b.len() > 0 {
        lemma_hex_len(b.drop_first());
    }
}

// ── Full-text queries ──────────────────────────────────────────────

/// A query with every character that is neither alphanumeric nor a space made a space.
pub open spec fn sanitized(q: Seq<char>) -> Seq<char> {
    Seq::new(q.len(), |i: int| if is_alnum(q[i]) || q[i] == ' ' { q[i] } else { ' ' })
}

/// `str::split_whitespace`: the maximal runs of characters that are not white space.
pub open spec fn words_of(s: Seq<char>) -> Seq<Seq<char>>
    decreases s.len(),
{
    if s.len() == 0 {
        Seq::empty()
    } else {
        let w = words_of(s.drop_last());
        let c = s.last();
        if is_white(c) {
            w
        } else if s.len() == 1 || is_white(s[s.len() - 2]) {
            w.push(seq![c])
        } else {
            w.update(w.len() - 1, w.last().push(c))
        }
    }
}

/// Each word with a trailing `*`.
pub open spec fn prefix_terms(words: Seq<Seq<char>>) -> Seq<Seq<char>> {
    words.map_values(|w: Seq<char>| w + seq!['*'])
}

/// The FTS5 match expression for a free-text query: its words, each as a prefix term.
pub open spec fn fts_query_spec(q: Seq<char>) -> Seq<char> {
    join(prefix_terms(words_of(sanitized(q))), seq![' '])
}

proof fn lemma_words_nonempty_after_word_char(s: Seq<char>)
    requires
        s.len() > 0,
        !is_white(s.last()),
    ensures
        words_of(s).len() > 0,
        words_of(s).last().len() > 0,
        words_of(s).last().last() == s.last(),
    decreases s.len(),
{
    if s.len() > 1 && !is_white(s[s.len() - 2]) {
        lemma_words_nonempty_after_word_char(s.drop_last());
    }
}

/// Build the FTS5 match expression for a free-text query.
pub fn fts_match_query(query: &str) -> (r: String)
    ensures
        r@ == fts_query_spec(query@),
{
    let q = chars_of(query);
    let mut clean: Vec<char> = Vec::new();
    let mut i: usize = 0;
    while i < q.len()
        invariant
            q@ == query@,
            i <= q@.len(),
            clean@ == sanitized(query@).take(i as int),
        decreases q.len() - i,
    {
        let c = q[i];
        let k = if char_is_alphanumeric(c) || c == ' ' { c } else { ' ' };
        clean.push(k);
        i = i + 1;
        assert(clean@ =~= sanitized(query@).take(i as int));
    }
    assert(sanitized(query@).take(q@.len() as int) =~= sanitized(query@));
    let ghost s = sanitized(query@);
    let mut done: Vec<Vec<char>> = Vec::new();
    let mut cur: Vec<char> = Vec::new();
    let mut j: usize = 0;
    while j < clean.len()
        invariant
            clean@ == s,
            j <= s.len(),
            (j > 0 && !is_white(s[j - 1])) ==> words_of(s.take(j as int)) == done@.map_values(|w: Vec<char>| w@).push(cur@),
            !(j > 0 && !is_white(s[j - 1])) ==> words_of(s.take(j as int)) == done@.map_values(|w: Vec<char>| w@),
            !(j > 0 && !is_white(s[j - 1])) ==> cur@.len() == 0,
            (j > 0 && !is_white(s[j - 1])) ==> cur@.len() > 0,
        decreases clean.len() - j,
    {
        let c = clean[j];
        let ghost prev_done = done@.map_values(|w: Vec<char>| w@);
        let ghost prev_cur = cur@;
        proof {
            assert(s.take(j + 1).drop_last() =~= s.take(j as int));
            assert(s.take(j + 1).last() == c);
            if j > 0 {
                assert(s.take(j + 1)[j - 1] == s[j - 1]);
            }
        }
        if char_is_whitespace(c) {
            if cur.len() > 0 {
                let mut w: Vec<char> = Vec::new();
                std::mem::swap(&mut w, &mut cur);
                done.push(w);
                proof {
                    assert(done@.map_values(|w: Vec<char>| w@) =~= prev_done.push(prev_cur));
                }
            }
        } else {
            cur.push(c);
            proof {
                if j > 0 && !is_white(s[j - 1]) {
                    assert(words_of(s.take(j + 1)) =~= prev_done.push(prev_cur).update(prev_done.len() as int, prev_cur.push(c)));
                    assert(prev_done.push(prev_cur).update(prev_done.len() as int, prev_cur.push(c)) =~= prev_done.push(cur@));
                } else {
                    assert(cur@ =~= seq![c]);
                }
            }
        }
        j = j + 1;
    }
    let ghost before = done@.map_values(|w: Vec<char>| w@);
    let ghost last_cur = cur@;
    if cur.len() > 0 {
        done.push(cur);
        proof {
            assert(done@.map_values(|w: Vec<char>| w@) =~= before.push(last_cur));
        }
    }
    proof {
        assert(s.take(s.len() as int) =~= s);
    }
    let ghost words = done@.map_values(|w: Vec<char>| w@);
    assert(words == words_of(s));
    let mut out = String::new();
    let mut k: usize = 0;
    while k < done.len()
        invariant
            k <= done@.len(),
            words == done@.map_values(|w: Vec<char>| w@),
            out@ == join(prefix_terms(words).take(k as int), seq![' ']),
        decreases done.len() - k,
    {
        let word = string_from_chars(done[k].as_slice());
        if k > 0 {
            out.append(" ");
        }
        out.append(word.as_str());
        out.append("*");
        proof {
            reveal_strlit(" ");
            reveal_strlit("*");
            assert(prefix_terms(words).take(k + 1).drop_last() =~= prefix_terms(words).take(k as int));
            assert(prefix_terms(words).take(k + 1).last() == words[k as int] + seq!['*']);
        }
        k = k + 1;
    }
    assert(prefix_terms(words).take(done@.len() as int) =~= prefix_terms(words));
    out
}


/// The match expression to run for a full-text query, or `None` when the query has no
/// words and nothing is searched.
pub fn fts_search_query(query: &str) -> (r: Option<String>)
    ensures
        match r {
            Some(m) => m@ == fts_query_spec(query@) && m@.len() > 0,
            None => fts_query_spec(query@).len() == 0,
        },
{
    let m = fts_match_query(query);
    if m.as_str().is_empty() {
        None
    } else {
        Some(m)
    }
}

} // verus!
