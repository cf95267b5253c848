//! Byte-level text utilities: splitting on a separator byte and reading
//! decimal numbers. Ringtone text is processed as its UTF-8 bytes; the
//! separators and digits of the format are ASCII, so byte-level splitting
//! agrees with character-level splitting on any valid UTF-8 input.

use vstd::prelude::*;

verus! {

/// True of the ASCII decimal digits `'0'..='9'`.
pub open spec fn is_digit(b: u8) -> bool {
    48 <= b <= 57
}

/// The fragments of `s` between occurrences of `sep`, as `str::split` yields
/// them: `n` separators produce `n + 1` fragments, empty fragments included,
/// so the result is never empty.
pub open spec fn split_on(s: Seq<u8>, sep: u8) -> Seq<Seq<u8>>
    decreases s.len(),
{
    if s.len() == 0 {
        seq![Seq::<u8>::empty()]
    } else if s[0] == sep {
        seq![Seq::<u8>::empty()] + split_on(s.drop_first(), sep)
    } else {
        let rest = split_on(s.drop_first(), sep);
        seq![seq![s[0]] + rest[0]] + rest.drop_first()
    }
}

/// How many times `b` occurs in `s`.
pub open spec fn count_byte(s: Seq<u8>, b: u8) -> int
    decreases s.len(),
{
    if s.len() == 0 {
        0
    } else {
        (if s[0] == b { 1int } else { 0int }) + count_byte(s.drop_first(), b)
    }
}

/// Splitting always yields one fragment more than there are separators.
pub proof fn lemma_split_on_len(s: Seq<u8>, sep: u8)
    ensures
        split_on(s, sep).len() == count_byte(s, sep) + 1,
    decreases s.len(),
{
    if s.len() > 0 {
        lemma_split_on_len(s.drop_first(), sep);
    }
}

/// Appending one byte extends the last fragment, or starts a fresh empty one
/// when the byte is the separator.
pub proof fn lemma_split_on_push(s: Seq<u8>, c: u8, sep: u8)
    ensures
        c == sep ==> split_on(s.push(c), sep) == split_on(s, sep).push(Seq::<u8>::empty()),
        c != sep ==> split_on(s.push(c), sep) == split_on(s, sep).drop_last().push(
            split_on(s, sep).last().push(c),
        ),
    decreases s.len(),
{
    lemma_split_on_len(s, sep);
    if s.len() == 0 {
        assert(s.push(c).drop_first() =~= s);
        assert(s.push(c)[0] == c);
        if c == sep {
            assert(split_on(s.push(c), sep) =~~= split_on(s, sep).push(Seq::<u8>::empty()));
        } else {
            assert(split_on(s.push(c), sep) =~~= split_on(s, sep).drop_last().push(
                split_on(s, sep).last().push(c),
            ));
        }
    } else {
        lemma_split_on_push(s.drop_first(), c, sep);
        lemma_split_on_len(s.drop_first(), sep);
        assert(s.push(c).drop_first() =~= s.drop_first().push(c));
        assert(s.push(c)[0] == s[0]);
        let rest = split_on(s.drop_first(), sep);
        let restc = split_on(s.drop_first().push(c), sep);
        if c == sep {
            if s[0] == sep {
                assert(split_on(s.push(c), sep) =~= split_on(s, sep).push(Seq::<u8>::empty()));
            } else {
                assert(restc[0] == rest[0]);
                assert(restc.drop_first() =~= rest.drop_first().push(Seq::<u8>::empty()));
                assert(split_on(s.push(c), sep) =~= split_on(s, sep).push(Seq::<u8>::empty()));
            }
        } else {
            if s[0] == sep {
                assert(split_on(s, sep).drop_last() =~= seq![Seq::<u8>::empty()]
                    + rest.drop_last());
                assert(split_on(s, sep).last() == rest.last());
                assert(split_on(s.push(c), sep) =~= split_on(s, sep).drop_last().push(
                    split_on(s, sep).last().push(c),
                ));
            } else {
                assert(restc[0] == rest.drop_last().push(rest.last().push(c))[0]);
                if rest.len() == 1 {
                    assert(restc[0] == rest[0].push(c));
                    assert(restc.drop_first() =~= rest.drop_first());
                    assert(split_on(s.push(c), sep) =~= split_on(s, sep).drop_last().push(
                        split_on(s, sep).last().push(c),
                    ));
                } else {
                    assert(restc[0] == rest[0]);
                    assert(restc.drop_first() =~= rest.drop_first().drop_last().push(
                        rest.last().push(c),
                    ));
                    assert(split_on(s, sep).drop_last() =~= seq![seq![s[0]] + rest[0]]
                        + rest.drop_first().drop_last());
                    assert(split_on(s, sep).last() == rest.last());
                    assert(split_on(s.push(c), sep) =~= split_on(s, sep).drop_last().push(
                        split_on(s, sep).last().push(c),
                    ));
                }
            }
        }
    }
}

/// A text without the separator is one single fragment.
pub proof fn lemma_split_on_whole(s: Seq<u8>, sep: u8)
    requires
        forall|i: int| 0 <= i < s.len() ==> s[i] != sep,
    ensures
        split_on(s, sep) == seq![s],
    decreases s.len(),
{
    if s.len() > 0 {
        lemma_split_on_whole(s.drop_first(), sep);
        assert(seq![s[0]] + s.drop_first() =~= s);
        assert(split_on(s, sep) =~~= seq![s]);
    } else {
        assert(s =~= Seq::<u8>::empty());
    }
}

/// The first separator cuts the text in two: the clean prefix becomes the
/// first fragment, and the rest splits on its own.
pub proof fn lemma_split_on_concat(a: Seq<u8>, b: Seq<u8>, sep: u8)
    requires
        forall|i: int| 0 <= i < a.len() ==> a[i] != sep,
    ensures
        split_on(a + seq![sep] + b, sep) == seq![a] + split_on(b, sep),
    decreases a.len(),
{
    let s = a + seq![sep] + b;
    if a.len() == 0 {
        assert(s[0] == sep);
        assert(s.drop_first() =~= b);
        assert(split_on(s, sep) =~~= seq![a] + split_on(b, sep));
    } else {
        lemma_split_on_concat(a.drop_first(), b, sep);
        assert(s[0] == a[0]);
        assert(s.drop_first() =~= a.drop_first() + seq![sep] + b);
        let rest = split_on(s.drop_first(), sep);
        assert(rest == seq![a.drop_first()] + split_on(b, sep));
        assert(rest[0] == a.drop_first());
        assert(seq![s[0]] + rest[0] =~= a);
        assert(rest.drop_first() =~= split_on(b, sep));
        assert(split_on(s, sep) =~~= seq![a] + split_on(b, sep));
    }
}

/// Splits `s` at every occurrence of `sep`, eagerly.
pub fn split_bytes(s: &Vec<u8>, sep: u8) -> (r: Vec<Vec<u8>>)
    ensures
        r.deep_view() == split_on(s@, sep),
{
    let mut out: Vec<Vec<u8>> = Vec::new();
    let mut cur: Vec<u8> = Vec::new();
    let mut i: usize = 0;
    proof {
        assert(s@.take(0) =~= Seq::<u8>::empty());
        assert(out.deep_view().push(cur@) =~~= split_on(s@.take(0), sep));
    }
    while i < s.len()
        invariant
            i <= s.len(),
            out.deep_view().push(cur@) == split_on(s@.take(i as int), sep),
        decreases s.len() - i,
    {
        proof {
            lemma_split_on_push(s@.take(i as int), s@[i as int], sep);
            assert(s@.take(i + 1) =~= s@.take(i as int).push(s@[i as int]));
        }
        let ghost prev_out = out.deep_view();
        let ghost prev_cur = cur@;
        if s[i] == sep {
            out.push(cur);
            cur = Vec::new();
            proof {
                assert(out.deep_view() =~~= prev_out.push(prev_cur));
                assert(out.deep_view().push(cur@) =~~= prev_out.push(prev_cur).push(
                    Seq::<u8>::empty(),
                ));
            }
        } else {
            cur.push(s[i]);
            proof {
                assert(prev_out.push(prev_cur).drop_last() =~= prev_out);
                assert(out.deep_view().push(cur@) =~~= prev_out.push(prev_cur).drop_last().push(
                    prev_out.push(prev_cur).last().push(s@[i as int]),
                ));
            }
        }
        i += 1;
    }
    proof {
        assert(s@.take(s@.len() as int) =~= s@);
    }
    let ghost prev_out = out.deep_view();
    let ghost prev_cur = cur@;
    out.push(cur);
    proof {
        assert(out.deep_view() =~~= prev_out.push(prev_cur));
    }
    out
}

/// True when every byte of `s` is a decimal digit.
pub open spec fn all_digits(s: Seq<u8>) -> bool {
    forall|i: int| 0 <= i < s.len() ==> is_digit(#[trigger] s[i])
}

/// The number written by the digits of `s`, most significant first.
/// Meaningful only when `all_digits(s)` holds.
pub open spec fn digits_val(s: Seq<u8>) -> int
    decreases s.len(),
{
    if s.len() == 0 {
        0
    } else {
        digits_val(s.drop_last()) * 10 + (s.last() - 48)
    }
}

/// What `str::parse::<u32>` returns on `s`: the written number, provided `s`
/// is a non-empty run of digits whose value fits in a `u32`.
pub open spec fn parse_u32_opt(s: Seq<u8>) -> Option<u32> {
    if s.len() > 0 && all_digits(s) && digits_val(s) <= u32::MAX {
        Some(digits_val(s) as u32)
    } else {
        None
    }
}

/// A digit string's value only grows as more digits are appended.
pub proof fn lemma_digits_val_mono(s: Seq<u8>, i: int)
    requires
        all_digits(s),
        0 <= i <= s.len(),
    ensures
        0 <= digits_val(s.take(i)) <= digits_val(s),
    decreases s.len() - i,
{
    if i == s.len() {
        assert(s.take(i) =~= s);
        lemma_digits_val_nonneg(s);
    } else {
        lemma_digits_val_mono(s, i + 1);
        assert(s.take(i + 1).drop_last() =~= s.take(i));
        assert(is_digit(s.take(i + 1).last()));
        lemma_digits_val_nonneg(s.take(i));
    }
}

/// Under `all_digits` the written value is never negative.
pub proof fn lemma_digits_val_nonneg(s: Seq<u8>)
    requires
        all_digits(s),
    ensures
        digits_val(s) >= 0,
    decreases s.len(),
{
    if s.len() > 0 {
        assert(all_digits(s.drop_last()));
        lemma_digits_val_nonneg(s.drop_last());
    }
}

/// Reads `s` as a decimal `u32`, as `str::parse::<u32>` would: `None` unless
/// `s` is a non-empty digit run whose value fits.
pub fn parse_u32(s: &Vec<u8>) -> (r: Option<u32>)
    ensures
        r == parse_u32_opt(s@),
{
    if s.len() == 0 {
        return None;
    }
    let mut acc: u64 = 0;
    let mut i: usize = 0;
    while i < s.len()
        invariant
            i <= s.len(),
            s@.len() > 0,
            all_digits(s@.take(i as int)),
            acc == digits_val(s@.take(i as int)),
            acc <= u32::MAX,
        decreases s.len() - i,
    {
        let b = s[i];
        if b < 48 || b > 57 {
            assert(!is_digit(s@[i as int]));
            return None;
        }
        let next: u64 = acc * 10 + ((b - 48) as u64);
        proof {
            assert(s@.take(i + 1).drop_last() =~= s@.take(i as int));
            assert(s@.take(i + 1).last() == s@[i as int]);
            assert(all_digits(s@.take(i + 1)));
        }
        if next > u32::MAX as u64 {
            proof {
                if all_digits(s@) {
                    lemma_digits_val_mono(s@, i + 1);
                }
            }
            return None;
        }
        acc = next;
        i += 1;
    }
    proof {
        assert(s@.take(s@.len() as int) =~= s@);
    }
    Some(acc as u32)
}

/// Length of the longest prefix of `s` whose bytes all satisfy `p`.
pub open spec fn run_len(s: Seq<u8>, p: spec_fn(u8) -> bool) -> int
    decreases s.len(),
{
    if s.len() == 0 || !p(s[0]) {
        0
    } else {
        1 + run_len(s.drop_first(), p)
    }
}

/// A cut below which every byte satisfies `p` and at which the next byte (if
/// any) does not is `run_len` itself.
pub proof fn lemma_run_len_is(s: Seq<u8>, p: spec_fn(u8) -> bool, n: int)
    requires
        0 <= n <= s.len(),
        forall|i: int| 0 <= i < n ==> p(#[trigger] s[i]),
        n < s.len() ==> !p(s[n]),
    ensures
        n == run_len(s, p),
    decreases s.len(),
{
    if s.len() > 0 && p(s[0]) {
        assert(n != 0);
        lemma_run_len_is(s.drop_first(), p, n - 1);
    }
}

/// Copies out the bytes of `s` between `from` and `to`.
pub fn sub_vec(s: &Vec<u8>, from: usize, to: usize) -> (r: Vec<u8>)
    requires
        from <= to <= s@.len(),
    ensures
        r@ == s@.subrange(from as int, to as int),
{
    let mut r: Vec<u8> = Vec::new();
    let mut i: usize = from;
    while i < to
        invariant
            from <= i <= to <= s@.len(),
            r@ == s@.subrange(from as int, i as int),
        decreases to - i,
    {
        r.push(s[i]);
        proof {
            assert(s@.subrange(from as int, i + 1) =~= s@.subrange(from as int, i as int).push(
                s@[i as int],
            ));
        }
        i += 1;
    }
    r
}

} // verus!
