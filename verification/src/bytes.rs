//! Byte-sequence utilities shared by the table parser, the helper-output
//! classifier and the mount-revert engine: equality and prefix tests, ASCII
//! whitespace trimming, separator splitting, line splitting and whitespace
//! tokenization, each proved against a direct specification.

use vstd::prelude::*;

verus! {

/// The views of a sequence of byte vectors.
pub open spec fn seqs_of(v: Seq<Vec<u8>>) -> Seq<Seq<u8>> {
    v.map_values(|x: Vec<u8>| x@)
}

/// True when the two byte slices hold the same bytes.
pub fn bytes_eq(a: &[u8], b: &[u8]) -> (r: bool)
    ensures
        r == (a@ == b@),
{
    if a.len() != b.len() {
        assert(a@ != b@);
        return false;
    }
    let mut i: usize = 0;
    while i < a.len()
        invariant
            0 <= i <= a@.len(),
            a@.len() == b@.len(),
            forall|j: int| 0 <= j < i ==> a@[j] == b@[j],
        decreases a@.len() - i,
    {
        if a[i] != b[i] {
            return false;
        }
        i += 1;
    }
    assert(a@ =~= b@);
    true
}

/// A fresh vector holding the bytes of `s`.
pub fn copy_bytes(s: &[u8]) -> (r: Vec<u8>)
    ensures
        r@ == s@,
{
    let mut r: Vec<u8> = Vec::new();
    let mut i: usize = 0;
    while i < s.len()
        invariant
            0 <= i <= s@.len(),
            r@ == s@.take(i as int),
        decreases s@.len() - i,
    {
        let b = s[i];
        r.push(b);
        assert(r@ =~= s@.take(i as int + 1));
        i += 1;
    }
    assert(r@ =~= s@);
    r
}

/// `prefix` is an initial segment of `s`.
pub open spec fn spec_starts_with(s: Seq<u8>, prefix: Seq<u8>) -> bool {
    prefix.len() <= s.len() && s.take(prefix.len() as int) == prefix
}

/// True when `s` begins with `prefix`.
pub fn starts_with(s: &[u8], prefix: &[u8]) -> (r: bool)
    ensures
        r == spec_starts_with(s@, prefix@),
{
    if prefix.len() > s.len() {
        return false;
    }
    let mut i: usize = 0;
    while i < prefix.len()
        invariant
            0 <= i <= prefix@.len() <= s@.len(),
            forall|j: int| 0 <= j < i ==> s@[j] == prefix@[j],
        decreases prefix@.len() - i,
    {
        if s[i] != prefix[i] {
            assert(s@.take(prefix@.len() as int)[i as int] != prefix@[i as int]);
            return false;
        }
        i += 1;
    }
    assert(s@.take(prefix@.len() as int) =~= prefix@);
    true
}

/// `s` split at every occurrence of `sep`; always at least one field, and
/// separators at the ends yield empty fields, as `str::split` does.
pub open spec fn spec_split(s: Seq<u8>, sep: u8) -> Seq<Seq<u8>>
    decreases s.len(),
{
    if s.len() == 0 {
        seq![Seq::<u8>::empty()]
    } else {
        let prev = spec_split(s.drop_last(), sep);
        if s.last() == sep {
            prev.push(Seq::<u8>::empty())
        } else {
            prev.update(prev.len() - 1, prev.last().push(s.last()))
        }
    }
}

/// Splits `s` at every occurrence of `sep`.
pub fn split_bytes(s: &[u8], sep: u8) -> (r: Vec<Vec<u8>>)
    ensures
        seqs_of(r@) == spec_split(s@, sep),
{
    let mut fields: Vec<Vec<u8>> = Vec::new();
    let mut cur: Vec<u8> = Vec::new();
    let mut i: usize = 0;
    while i < s.len()
        invariant
            0 <= i <= s@.len(),
            seqs_of(fields@).push(cur@) == spec_split(s@.take(i as int), sep),
        decreases s@.len() - i,
    {
        let ghost pre_fields = fields@;
        let ghost pre_cur = cur@;
        if s[i] == sep {
            fields.push(cur);
            cur = Vec::new();
        } else {
            let b = s[i];
            cur.push(b);
        }
        proof {
            let t1 = s@.take(i as int + 1);
            assert(t1.drop_last() =~= s@.take(i as int));
            let prev = spec_split(s@.take(i as int), sep);
            if s@[i as int] == sep {
                assert(seqs_of(fields@) =~= seqs_of(pre_fields).push(pre_cur));
                assert(seqs_of(fields@).push(cur@) =~~= prev.push(Seq::<u8>::empty()));
                assert(seqs_of(fields@).push(cur@) =~~= spec_split(t1, sep));
            } else {
                assert(prev.last() == pre_cur);
                assert(seqs_of(fields@) =~= seqs_of(pre_fields));
                assert(seqs_of(fields@).push(cur@) =~~= prev.update(
                    prev.len() - 1,
                    pre_cur.push(s@[i as int]),
                ));
                assert(seqs_of(fields@).push(cur@) =~~= spec_split(t1, sep));
            }
        }
        i += 1;
    }
    assert(s@.take(s@.len() as int) =~= s@);
    fields.push(cur);
    proof {
        assert(seqs_of(fields@) =~~= spec_split(s@, sep));
    }
    fields
}

/// The lines of `s`: fields between line feeds, with a final line feed
/// closing the last line rather than opening an empty one, as a reader that
/// takes one line at a time sees them.
pub open spec fn spec_lines(s: Seq<u8>) -> Seq<Seq<u8>> {
    if s.len() == 0 {
        Seq::<Seq<u8>>::empty()
    } else if s.last() == 10 {
        spec_split(s.drop_last(), 10)
    } else {
        spec_split(s, 10)
    }
}

/// Splits `s` into lines.
pub fn split_lines(s: &[u8]) -> (r: Vec<Vec<u8>>)
    ensures
        seqs_of(r@) == spec_lines(s@),
{
    if s.len() == 0 {
        let r: Vec<Vec<u8>> = Vec::new();
        assert(seqs_of(r@) =~~= spec_lines(s@));
        return r;
    }
    if s[s.len() - 1] == 10 {
        let head = &s[0..s.len() - 1];
        assert(head@ =~= s@.drop_last());
        split_bytes(head, 10)
    } else {
        split_bytes(s, 10)
    }
}

/// True when `b` is an ASCII whitespace byte (tab, line feed, vertical tab,
/// form feed, carriage return, space).
pub open spec fn is_ascii_ws(b: u8) -> bool {
    b == 32 || (9 <= b && b <= 13)
}

/// True when `b` is an ASCII whitespace byte.
pub fn ascii_ws(b: u8) -> (r: bool)
    ensures
        r == is_ascii_ws(b),
{
    b == 32 || (9 <= b && b <= 13)
}

/// `s` without its leading ASCII whitespace.
pub open spec fn spec_trim_start(s: Seq<u8>) -> Seq<u8>
    decreases s.len(),
{
    if s.len() > 0 && is_ascii_ws(s[0]) {
        spec_trim_start(s.drop_first())
    } else {
        s
    }
}

/// `s` without its trailing ASCII whitespace.
pub open spec fn spec_trim_end(s: Seq<u8>) -> Seq<u8>
    decreases s.len(),
{
    if s.len() > 0 && is_ascii_ws(s.last()) {
        spec_trim_end(s.drop_last())
    } else {
        s
    }
}

/// `s` without leading and trailing ASCII whitespace.
pub open spec fn spec_trim(s: Seq<u8>) -> Seq<u8> {
    spec_trim_end(spec_trim_start(s))
}

proof fn lemma_trim_start_skip(s: Seq<u8>, lo: int)
    requires
        0 <= lo <= s.len(),
        forall|j: int| 0 <= j < lo ==> is_ascii_ws(s[j]),
        lo < s.len() ==> !is_ascii_ws(s[lo]),
    ensures
        spec_trim_start(s) == s.skip(lo),
    decreases lo,
{
    if lo == 0 {
        assert(s.skip(0) =~= s);
    } else {
        assert(is_ascii_ws(s[0]));
        lemma_trim_start_skip(s.drop_first(), lo - 1);
        assert(s.drop_first().skip(lo - 1) =~= s.skip(lo));
    }
}

proof fn lemma_trim_end_take(s: Seq<u8>, hi: int)
    requires
        0 <= hi <= s.len(),
        forall|j: int| hi <= j < s.len() ==> is_ascii_ws(s[j]),
        hi > 0 ==> !is_ascii_ws(s[hi - 1]),
    ensures
        spec_trim_end(s) == s.take(hi),
    decreases s.len() - hi,
{
    if hi == s.len() {
        assert(s.take(hi) =~= s);
        if s.len() > 0 {
            assert(!is_ascii_ws(s.last()));
        }
    } else {
        assert(is_ascii_ws(s.last()));
        lemma_trim_end_take(s.drop_last(), hi);
        assert(s.drop_last().take(hi) =~= s.take(hi));
    }
}

/// `s` with leading and trailing ASCII whitespace removed.
pub fn trim_ascii(s: &[u8]) -> (r: Vec<u8>)
    ensures
        r@ == spec_trim(s@),
{
    let mut lo: usize = 0;
    while lo < s.len() && ascii_ws(s[lo])
        invariant
            0 <= lo <= s@.len(),
            forall|j: int| 0 <= j < lo ==> is_ascii_ws(s@[j]),
        decreases s@.len() - lo,
    {
        lo += 1;
    }
    let mut hi: usize = s.len();
    while hi > lo && ascii_ws(s[hi - 1])
        invariant
            lo <= hi <= s@.len(),
            forall|j: int| 0 <= j < lo ==> is_ascii_ws(s@[j]),
            forall|j: int| hi <= j < s@.len() ==> is_ascii_ws(s@[j]),
        decreases hi,
    {
        hi -= 1;
    }
    let mut r: Vec<u8> = Vec::new();
    let mut i: usize = lo;
    while i < hi
        invariant
            lo <= i <= hi <= s@.len(),
            r@ == s@.subrange(lo as int, i as int),
        decreases hi - i,
    {
        let b = s[i];
        r.push(b);
        assert(r@ =~= s@.subrange(lo as int, i as int + 1));
        i += 1;
    }
    proof {
        lemma_trim_start_skip(s@, lo as int);
        let t = s@.skip(lo as int);
        if hi == lo {
            lemma_trim_end_take(t, 0);
        } else {
            assert(t[hi - lo - 1] == s@[hi as int - 1]);
            lemma_trim_end_take(t, hi - lo as int);
        }
        assert(t.take(hi - lo as int) =~= s@.subrange(lo as int, hi as int));
    }
    r
}

/// `s` split at every run boundary of ASCII whitespace, empty fields
/// included; `spec_tokens` drops the empty ones.
pub open spec fn spec_split_ws(s: Seq<u8>) -> Seq<Seq<u8>>
    decreases s.len(),
{
    if s.len() == 0 {
        seq![Seq::<u8>::empty()]
    } else {
        let prev = spec_split_ws(s.drop_last());
        if is_ascii_ws(s.last()) {
            prev.push(Seq::<u8>::empty())
        } else {
            prev.update(prev.len() - 1, prev.last().push(s.last()))
        }
    }
}

/// The nonempty fields of `parts`, in order.
pub open spec fn nonempty_of(parts: Seq<Seq<u8>>) -> Seq<Seq<u8>> {
    parts.filter(|t: Seq<u8>| t.len() > 0)
}

/// The ASCII-whitespace-separated tokens of `s`.
pub open spec fn spec_tokens(s: Seq<u8>) -> Seq<Seq<u8>> {
    nonempty_of(spec_split_ws(s))
}

/// Splits `s` at ASCII whitespace, keeping empty fields.
fn split_ws(s: &[u8]) -> (r: Vec<Vec<u8>>)
    ensures
        seqs_of(r@) == spec_split_ws(s@),
{
    let mut fields: Vec<Vec<u8>> = Vec::new();
    let mut cur: Vec<u8> = Vec::new();
    let mut i: usize = 0;
    while i < s.len()
        invariant
            0 <= i <= s@.len(),
            seqs_of(fields@).push(cur@) == spec_split_ws(s@.take(i as int)),
        decreases s@.len() - i,
    {
        let ghost pre_fields = fields@;
        let ghost pre_cur = cur@;
        if ascii_ws(s[i]) {
            fields.push(cur);
            cur = Vec::new();
        } else {
            let b = s[i];
            cur.push(b);
        }
        proof {
            let t1 = s@.take(i as int + 1);
            assert(t1.drop_last() =~= s@.take(i as int));
            let prev = spec_split_ws(s@.take(i as int));
            if is_ascii_ws(s@[i as int]) {
                assert(seqs_of(fields@) =~= seqs_of(pre_fields).push(pre_cur));
                assert(seqs_of(fields@).push(cur@) =~~= prev.push(Seq::<u8>::empty()));
                assert(seqs_of(fields@).push(cur@) =~~= spec_split_ws(t1));
            } else {
                assert(prev.last() == pre_cur);
                assert(seqs_of(fields@) =~= seqs_of(pre_fields));
                assert(seqs_of(fields@).push(cur@) =~~= prev.update(
                    prev.len() - 1,
                    pre_cur.push(s@[i as int]),
                ));
                assert(seqs_of(fields@).push(cur@) =~~= spec_split_ws(t1));
            }
        }
        i += 1;
    }
    assert(s@.take(s@.len() as int) =~= s@);
    fields.push(cur);
    proof {
        assert(seqs_of(fields@) =~~= spec_split_ws(s@));
    }
    fields
}

/// The ASCII-whitespace-separated tokens of `s`, in order.
pub fn tokens(s: &[u8]) -> (r: Vec<Vec<u8>>)
    ensures
        seqs_of(r@) == spec_tokens(s@),
{
    broadcast use Seq::lemma_filter_push;

    let raw = split_ws(s);
    let mut out: Vec<Vec<u8>> = Vec::new();
    let mut i: usize = 0;
    while i < raw.len()
        invariant
            0 <= i <= raw@.len(),
            seqs_of(raw@) == spec_split_ws(s@),
            seqs_of(out@) == nonempty_of(seqs_of(raw@).take(i as int)),
        decreases raw@.len() - i,
    {
        let ghost pre_out = out@;
        if raw[i].len() > 0 {
            let f = copy_bytes(raw[i].as_slice());
            out.push(f);
        }
        proof {
            let raws = seqs_of(raw@);
            let taken = raws.take(i as int);
            let taken1 = raws.take(i as int + 1);
            assert(taken1 =~= taken.push(raws[i as int]));
            let pred = |t: Seq<u8>| t.len() > 0;
            taken.lemma_filter_push(raws[i as int], pred);
            assert(nonempty_of(taken.push(raws[i as int])) == if raws[i as int].len() > 0 {
                nonempty_of(taken).push(raws[i as int])
            } else {
                nonempty_of(taken)
            });
            if raws[i as int].len() > 0 {
                assert(seqs_of(out@) =~~= seqs_of(pre_out).push(raws[i as int]));
            }
            assert(seqs_of(out@) =~~= nonempty_of(taken1));
        }
        i += 1;
    }
    proof {
        assert(seqs_of(raw@).take(raw@.len() as int) =~= seqs_of(raw@));
    }
    out
}

} // verus!
