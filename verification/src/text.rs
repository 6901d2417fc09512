//! Character-level helpers on strings: views as `Seq<char>`, substring
//! search, prefix stripping and fixed-width chunking.

use vstd::prelude::*;

verus! {

/// `needle` occurs in `hay` as a contiguous run of characters.
pub open spec fn seq_contains(hay: Seq<char>, needle: Seq<char>) -> bool {
    exists|i: int|
        0 <= i && i + needle.len() <= hay.len() && #[trigger] hay.subrange(i, i + needle.len())
            == needle
}

/// A text that occurs in `m` occurs in any text that has `m` inside it.
pub proof fn lemma_contains_extend(m: Seq<char>, needle: Seq<char>, before: Seq<char>, after: Seq<char>)
    requires
        seq_contains(m, needle),
    ensures
        seq_contains(before + m + after, needle),
{
    let i = choose|i: int|
        0 <= i && i + needle.len() <= m.len() && #[trigger] m.subrange(i, i + needle.len()) == needle;
    let whole = before + m + after;
    let j = i + before.len();
    assert(whole.subrange(j, j + needle.len()) =~= m.subrange(i, i + needle.len()));
}

/// `prefix` is an initial segment of `s`.
pub open spec fn seq_starts_with(s: Seq<char>, prefix: Seq<char>) -> bool {
    prefix.len() <= s.len() && s.subrange(0, prefix.len() as int) == prefix
}

/// The characters of a string, in order.
pub fn chars_of(s: &str) -> (v: Vec<char>)
    ensures
        v@ == s@,
{
    let n = s.unicode_len();
    let mut v: Vec<char> = Vec::new();
    let mut i: usize = 0;
    while i < n
        invariant
            n == s@.len(),
            i <= n,
            v@ == s@.subrange(0, i as int),
        decreases n - i,
    {
        let c = s.get_char(i);
        v.push(c);
        i = i + 1;
        assert(v@ =~= s@.subrange(0, i as int));
    }
    assert(v@ =~= s@);
    v
}

/// Whether `needle` occurs at position `at` of `hay`.
fn occurs_at(hay: &Vec<char>, needle: &Vec<char>, at: usize) -> (r: bool)
    requires
        at + needle@.len() <= hay@.len(),
    ensures
        r == (hay@.subrange(at as int, at + needle@.len()) == needle@),
{
    let m = needle.len();
    let mut j: usize = 0;
    while j < m
        invariant
            m == needle@.len(),
            at + m <= hay.len(),
            j <= m,
            forall|k: int| 0 <= k < j ==> hay@[at + k] == needle@[k],
        decreases m - j,
    {
        if hay[at + j] != needle[j] {
            assert(hay@.subrange(at as int, at + m)[j as int] != needle@[j as int]);
            return false;
        }
        j = j + 1;
    }
    assert(hay@.subrange(at as int, at + m) =~= needle@);
    true
}

/// Substring search: whether `needle` occurs anywhere in `hay`.
pub fn contains_str(hay: &str, needle: &str) -> (r: bool)
    ensures
        r == seq_contains(hay@, needle@),
{
    let h = chars_of(hay);
    let n = chars_of(needle);
    if n.len() > h.len() {
        return false;
    }
    let last = h.len() - n.len();
    let mut i: usize = 0;
    loop
        invariant
            h@ == hay@,
            n@ == needle@,
            last + n@.len() == h@.len(),
            i <= last,
            forall|k: int| 0 <= k < i ==> #[trigger] h@.subrange(k, k + n@.len()) != n@,
        decreases last - i,
    {
        if occurs_at(&h, &n, i) {
            return true;
        }
        if i == last {
            return false;
        }
        i = i + 1;
    }
}


/// Largest number of characters carried by one piece of streamed text.
pub const CHUNK_CHARS: usize = 50;

/// `s` cut, from the front, into consecutive pieces of `CHUNK_CHARS`
/// characters; the last piece holds what is left (1 to `CHUNK_CHARS`
/// characters). The empty text has no pieces.
pub open spec fn chunks_of(s: Seq<char>) -> Seq<Seq<char>>
    decreases s.len(),
{
    if s.len() == 0 {
        Seq::empty()
    } else if s.len() <= CHUNK_CHARS {
        seq![s]
    } else {
        seq![s.take(CHUNK_CHARS as int)] + chunks_of(s.skip(CHUNK_CHARS as int))
    }
}

/// The number of pieces that `chunks_of` makes of a text of `n` characters.
pub open spec fn chunk_count(n: nat) -> nat {
    (n + (CHUNK_CHARS - 1)) as nat / (CHUNK_CHARS as nat)
}

/// Joining the pieces in order gives back the text.
pub proof fn lemma_chunks_rejoin(s: Seq<char>)
    ensures
        chunks_of(s).flatten() == s,
    decreases s.len(),
{
    if s.len() == 0 {
    } else if s.len() <= CHUNK_CHARS {
        let one = seq![s];
        assert(one.drop_first() =~= Seq::<Seq<char>>::empty());
        assert(one.drop_first().flatten() =~= Seq::<char>::empty());
        assert(one.first() == s);
        assert(one.flatten() == one.first() + one.drop_first().flatten());
        assert(s + Seq::<char>::empty() =~= s);
    } else {
        let head = s.take(CHUNK_CHARS as int);
        let rest = s.skip(CHUNK_CHARS as int);
        lemma_chunks_rejoin(rest);
        let c = seq![head] + chunks_of(rest);
        assert(c.first() == head);
        assert(c.drop_first() =~= chunks_of(rest));
        assert(head + rest =~= s);
    }
}

/// Every piece is non-empty and at most `CHUNK_CHARS` long, every piece but
/// the last is exactly `CHUNK_CHARS` long, and there are
/// `chunk_count(s.len())` of them.
pub proof fn lemma_chunks_sizes(s: Seq<char>)
    ensures
        chunks_of(s).len() == chunk_count(s.len()),
        forall|k: int|
            0 <= k < chunks_of(s).len() ==> 0 < #[trigger] chunks_of(s)[k].len() <= CHUNK_CHARS,
        forall|k: int|
            0 <= k < chunks_of(s).len() - 1 ==> #[trigger] chunks_of(s)[k].len() == CHUNK_CHARS,
    decreases s.len(),
{
    if s.len() == 0 {
    } else if s.len() <= CHUNK_CHARS {
    } else {
        let rest = s.skip(CHUNK_CHARS as int);
        lemma_chunks_sizes(rest);
        let c = seq![s.take(CHUNK_CHARS as int)] + chunks_of(rest);
        assert forall|k: int| 0 <= k < c.len() implies 0 < #[trigger] c[k].len() <= CHUNK_CHARS by {
            if k > 0 {
                assert(c[k] == chunks_of(rest)[k - 1]);
            }
        }
        assert forall|k: int| 0 <= k < c.len() - 1 implies #[trigger] c[k].len() == CHUNK_CHARS by {
            if k > 0 {
                assert(c[k] == chunks_of(rest)[k - 1]);
            }
        }
    }
}

/// Taking one piece off the front of `s.skip(i)`.
proof fn lemma_chunks_step(s: Seq<char>, i: int, j: int)
    requires
        0 <= i < j <= s.len(),
        j == if s.len() - i > CHUNK_CHARS { i + CHUNK_CHARS } else { s.len() as int },
    ensures
        chunks_of(s.skip(i)) == seq![s.subrange(i, j)] + chunks_of(s.skip(j)),
{
    let t = s.skip(i);
    if t.len() <= CHUNK_CHARS {
        assert(t =~= s.subrange(i, j));
        assert(s.skip(j).len() == 0);
        assert(chunks_of(s.skip(j)) =~= Seq::<Seq<char>>::empty());
        assert(seq![s.subrange(i, j)] + chunks_of(s.skip(j)) =~= seq![s.subrange(i, j)]);
    } else {
        assert(t.take(CHUNK_CHARS as int) =~= s.subrange(i, j));
        assert(t.skip(CHUNK_CHARS as int) =~= s.skip(j));
    }
}

/// The text of `s` cut into the pieces of `chunks_of`.
pub fn split_chunks(s: &str) -> (pieces: Vec<String>)
    ensures
        pieces@.map_values(|p: String| p@) == chunks_of(s@),
{
    let n = s.unicode_len();
    let mut pieces: Vec<String> = Vec::new();
    let mut i: usize = 0;
    assert(s@.skip(0) =~= s@);
    while i < n
        invariant
            n == s@.len(),
            i <= n,
            pieces@.map_values(|p: String| p@) + chunks_of(s@.skip(i as int)) == chunks_of(s@),
        decreases n - i,
    {
        let j: usize = if n - i > CHUNK_CHARS {
            i + CHUNK_CHARS
        } else {
            n
        };
        let piece = String::from_str(s.substring_char(i, j));
        proof {
            lemma_chunks_step(s@, i as int, j as int);
        }
        let ghost before = pieces@.map_values(|p: String| p@);
        pieces.push(piece);
        assert(pieces@.map_values(|p: String| p@) =~= before.push(s@.subrange(i as int, j as int)));
        assert(before.push(s@.subrange(i as int, j as int)) + chunks_of(s@.skip(j as int)) =~= before
            + (seq![s@.subrange(i as int, j as int)] + chunks_of(s@.skip(j as int))));
        i = j;
    }
    assert(s@.skip(n as int).len() == 0);
    assert(chunks_of(s@.skip(n as int)) =~= Seq::<Seq<char>>::empty());
    assert(pieces@.map_values(|p: String| p@) + Seq::<Seq<char>>::empty() =~= pieces@.map_values(
        |p: String| p@,
    ));
    pieces
}

/// `s` without its leading `prefix` when it begins with it, else `s` itself.
pub fn strip_prefix_or_whole<'a>(s: &'a str, prefix: &str) -> (r: &'a str)
    ensures
        seq_starts_with(s@, prefix@) ==> r@ == s@.skip(prefix@.len() as int),
        !seq_starts_with(s@, prefix@) ==> r@ == s@,
{
    let n = s.unicode_len();
    let m = prefix.unicode_len();
    if m > n {
        return s;
    }
    let mut k: usize = 0;
    while k < m
        invariant
            n == s@.len(),
            m == prefix@.len(),
            m <= n,
            k <= m,
            forall|t: int| 0 <= t < k ==> s@[t] == prefix@[t],
        decreases m - k,
    {
        if s.get_char(k) != prefix.get_char(k) {
            assert(s@.subrange(0, m as int)[k as int] != prefix@[k as int]);
            return s;
        }
        k = k + 1;
    }
    assert(s@.subrange(0, m as int) =~= prefix@);
    let rest = s.substring_char(m, n);
    assert(rest@ =~= s@.skip(m as int));
    rest
}

} // verus!
