use vstd::prelude::*;
use vstd::utf8::{decode_utf8, valid_utf8};

verus! {

/// What `String::from_utf8_lossy` makes of a byte sequence.
pub uninterp spec fn lossy_text(bytes: Seq<u8>) -> Seq<char>;

/// Decodes a command's output as `String::from_utf8_lossy` does.
///
/// Trusted: `String::from_utf8_lossy` (std). Claimed: the result is a function of the
/// bytes alone (`lossy_text`); valid UTF-8 decodes as such; the text is empty exactly
/// when the bytes are (every invalid sequence is replaced by U+FFFD, never dropped).
#[verifier::external_body]
pub(crate) fn decode_lossy(bytes: &[u8]) -> (text: String)
    ensures
        text@ == lossy_text(bytes@),
        valid_utf8(bytes@) ==> text@ == decode_utf8(bytes@),
        (text@.len() == 0) == (bytes@.len() == 0),
{
    String::from_utf8_lossy(bytes).into_owned()
}

/// Appends a character to a string.
///
/// Trusted: `String::push` (std), which appends the given char to the end.
#[verifier::external_body]
pub(crate) fn push_char(s: &mut String, c: char)
    ensures
        final(s)@ == old(s)@.push(c),
{
    s.push(c);
}

/// The pieces of `s` between the occurrences of `sep`, as `str::split` yields them.
pub open spec fn split_seq(s: Seq<char>, sep: char) -> Seq<Seq<char>>
    decreases s.len(),
{
    if s.len() == 0 {
        seq![Seq::<char>::empty()]
    } else {
        let pre = split_seq(s.drop_last(), sep);
        if s.last() == sep {
            pre.push(Seq::<char>::empty())
        } else {
            pre.update(pre.len() - 1, pre.last().push(s.last()))
        }
    }
}

/// A split always has at least one piece.
pub proof fn lemma_split_nonempty(s: Seq<char>, sep: char)
    ensures
        split_seq(s, sep).len() >= 1,
    decreases s.len(),
{
    if s.len() > 0 {
        lemma_split_nonempty(s.drop_last(), sep);
    }
}

/// Splits `s` at every occurrence of `sep`.
pub fn split_text(s: &str, sep: char) -> (parts: Vec<String>)
    ensures
        parts.deep_view() == split_seq(s@, sep),
{
    let mut parts: Vec<String> = Vec::new();
    let mut cur = String::new();
    let n = s.unicode_len();
    let mut i: usize = 0;
    while i < n
        invariant
            n == s@.len(),
            i <= n,
            parts.deep_view().push(cur@) == split_seq(s@.take(i as int), sep),
        decreases n - i,
    {
        let c = s.get_char(i);
        proof {
            assert(s@.take(i + 1).drop_last() == s@.take(i as int));
            lemma_split_nonempty(s@.take(i as int), sep);
        }
        if c == sep {
            parts.push(cur);
            cur = String::new();
        } else {
            push_char(&mut cur, c);
        }
        i = i + 1;
        proof {
            assert(parts.deep_view().push(cur@) =~= split_seq(s@.take(i as int), sep));
        }
    }
    proof {
        assert(s@.take(n as int) == s@);
    }
    parts.push(cur);
    parts
}

/// The pieces joined with `sep` between consecutive ones, as `[String]::join` does.
pub open spec fn join_seq(parts: Seq<Seq<char>>, sep: Seq<char>) -> Seq<char>
    decreases parts.len(),
{
    if parts.len() == 0 {
        Seq::<char>::empty()
    } else if parts.len() == 1 {
        parts[0]
    } else {
        join_seq(parts.drop_last(), sep) + sep + parts.last()
    }
}

/// Joins `parts[start..]` with `sep` between consecutive pieces.
pub fn join_from(parts: &Vec<String>, start: usize, sep: &str) -> (res: String)
    requires
        start <= parts.len(),
    ensures
        res@ == join_seq(parts.deep_view().skip(start as int), sep@),
{
    let ghost all = parts.deep_view().skip(start as int);
    let mut res = String::new();
    let mut i: usize = start;
    while i < parts.len()
        invariant
            start <= i <= parts.len(),
            all == parts.deep_view().skip(start as int),
            res@ == join_seq(all.take(i - start), sep@),
        decreases parts.len() - i,
    {
        proof {
            assert(all.take(i + 1 - start).drop_last() =~= all.take(i - start));
            assert(all.take(i + 1 - start).last() == parts[i as int]@);
        }
        if i > start {
            res.append(sep);
        }
        res.append(parts[i].as_str());
        i = i + 1;
    }
    proof {
        assert(all.take(i - start) =~= all);
    }
    res
}

/// Whether two texts are the same.
pub fn same_text(a: &str, b: &str) -> (res: bool)
    ensures
        res == (a@ == b@),
{
    a.to_owned() == b.to_owned()
}

/// Joining the pieces of a split with the separator gives back the text.
pub proof fn lemma_join_split(s: Seq<char>, sep: char)
    ensures
        join_seq(split_seq(s, sep), seq![sep]) == s,
    decreases s.len(),
{
    if s.len() > 0 {
        let pre = split_seq(s.drop_last(), sep);
        lemma_join_split(s.drop_last(), sep);
        lemma_split_nonempty(s.drop_last(), sep);
        if s.last() == sep {
            assert(pre.push(Seq::<char>::empty()).drop_last() =~= pre);
            assert(join_seq(pre.push(Seq::<char>::empty()), seq![sep]) =~= s);
        } else {
            lemma_join_extend_last(pre, seq![sep], s.last());
            assert(s.drop_last().push(s.last()) =~= s);
        }
    }
}

/// Extending the last piece extends the joined text.
pub proof fn lemma_join_extend_last(parts: Seq<Seq<char>>, sep: Seq<char>, c: char)
    requires
        parts.len() >= 1,
    ensures
        join_seq(parts.update(parts.len() - 1, parts.last().push(c)), sep) == join_seq(parts, sep).push(c),
{
    let q = parts.update(parts.len() - 1, parts.last().push(c));
    if parts.len() == 1 {
        assert(q[0] == parts[0].push(c));
    } else {
        assert(q.drop_last() =~= parts.drop_last());
        assert(q.last() == parts.last().push(c));
        assert(join_seq(q, sep) =~= join_seq(parts, sep).push(c));
    }
}

/// Joining splits at any inner piece: the head joined, the separator, the tail joined.
pub proof fn lemma_join_split_at(parts: Seq<Seq<char>>, sep: Seq<char>, k: int)
    requires
        1 <= k < parts.len(),
    ensures
        join_seq(parts, sep) == join_seq(parts.take(k), sep) + sep + join_seq(parts.skip(k), sep),
    decreases parts.len(),
{
    if k == parts.len() - 1 {
        assert(parts.take(k) =~= parts.drop_last());
        assert(parts.skip(k) =~= seq![parts.last()]);
    } else {
        lemma_join_split_at(parts.drop_last(), sep, k);
        assert(parts.drop_last().take(k) =~= parts.take(k));
        assert(parts.skip(k).drop_last() =~= parts.drop_last().skip(k));
        assert(parts.skip(k).last() == parts.last());
        assert(join_seq(parts, sep) =~= join_seq(parts.take(k), sep) + sep + join_seq(parts.skip(k), sep));
    }
}

/// `s` holds no `c`.
pub open spec fn free_of(s: Seq<char>, c: char) -> bool {
    forall|i: int| 0 <= i < s.len() ==> s[i] != c
}

/// A text without the separator is a single piece.
pub proof fn lemma_split_free(s: Seq<char>, sep: char)
    requires
        free_of(s, sep),
    ensures
        split_seq(s, sep) == seq![s],
    decreases s.len(),
{
    if s.len() == 0 {
        assert(s =~= Seq::<char>::empty());
        assert(split_seq(s, sep) =~= seq![s]);
    } else {
        assert(free_of(s.drop_last(), sep));
        lemma_split_free(s.drop_last(), sep);
        assert(s.last() != sep);
        let pre = split_seq(s.drop_last(), sep);
        assert(pre.len() == 1 && pre.last() == s.drop_last());
        assert(s.drop_last().push(s.last()) =~= s);
        assert(split_seq(s, sep) =~= seq![s]);
    }
}

/// Splitting at a separator splits the pieces on both sides of it.
pub proof fn lemma_split_concat(a: Seq<char>, b: Seq<char>, sep: char)
    ensures
        split_seq(a + seq![sep] + b, sep) == split_seq(a, sep) + split_seq(b, sep),
    decreases b.len(),
{
    let whole = a + seq![sep] + b;
    if b.len() == 0 {
        assert(whole.drop_last() =~= a);
        assert(split_seq(whole, sep) =~= split_seq(a, sep) + split_seq(b, sep));
    } else {
        lemma_split_concat(a, b.drop_last(), sep);
        lemma_split_nonempty(b.drop_last(), sep);
        assert(whole.drop_last() =~= a + seq![sep] + b.drop_last());
        assert(whole.last() == b.last());
        assert(split_seq(whole, sep) =~= split_seq(a, sep) + split_seq(b, sep));
    }
}

} // verus!