use vstd::prelude::*;

verus! {

/// ASCII decimal digit.
pub open spec fn is_dec_digit(b: u8) -> bool {
    0x30 <= b <= 0x39
}

/// Every byte of `s` is an ASCII decimal digit.
pub open spec fn all_digits(s: Seq<u8>) -> bool {
    forall|i: int| 0 <= i < s.len() ==> is_dec_digit(#[trigger] s[i])
}

/// Numeric value of a digit string, most significant digit first.
pub open spec fn dec_val(s: Seq<u8>) -> int
    decreases s.len(),
{
    if s.len() == 0 {
        0
    } else {
        dec_val(s.drop_last()) * 10 + (s.last() - 0x30)
    }
}

/// Shortest decimal representation of `n`, most significant digit first.
pub open spec fn dec_rep(n: nat) -> Seq<u8>
    decreases n,
{
    if n < 10 {
        seq![(0x30 + n) as u8]
    } else {
        dec_rep(n / 10).push((0x30 + n % 10) as u8)
    }
}

/// What `str::parse` to an unsigned integer with maximum `max` accepts: an
/// optional leading `+`, then one or more digits, with a value that fits.
pub open spec fn spec_parse_uint(s: Seq<u8>, max: int) -> Option<int> {
    let t = if s.len() > 0 && s[0] == 0x2b {
        s.drop_first()
    } else {
        s
    };
    if t.len() == 0 || !all_digits(t) || dec_val(t) > max {
        None
    } else {
        Some(dec_val(t))
    }
}

proof fn lemma_dec_val_nonneg(s: Seq<u8>)
    requires
        all_digits(s),
    ensures
        dec_val(s) >= 0,
    decreases s.len(),
{
    if s.len() > 0 {
        assert(all_digits(s.drop_last())) by {
            assert(forall|i: int|
                0 <= i < s.len() - 1 ==> #[trigger] s.drop_last()[i] == s[i]);
        }
        lemma_dec_val_nonneg(s.drop_last());
    }
}

proof fn lemma_dec_val_step(s: Seq<u8>, i: int)
    requires
        0 <= i < s.len(),
    ensures
        dec_val(s.take(i + 1)) == dec_val(s.take(i)) * 10 + (s[i] - 0x30),
{
    assert(s.take(i + 1).drop_last() =~= s.take(i));
    assert(s.take(i + 1).last() == s[i]);
}

proof fn lemma_dec_val_prefix_le(s: Seq<u8>, i: int)
    requires
        all_digits(s),
        0 <= i <= s.len(),
    ensures
        dec_val(s.take(i)) <= dec_val(s),
    decreases s.len() - i,
{
    if i < s.len() {
        lemma_dec_val_step(s, i);
        assert(all_digits(s.take(i))) by {
            assert(forall|j: int| 0 <= j < i ==> #[trigger] s.take(i)[j] == s[j]);
        }
        lemma_dec_val_nonneg(s.take(i));
        lemma_dec_val_prefix_le(s, i + 1);
    } else {
        assert(s.take(i) =~= s);
    }
}

/// Copy of `s[from..to]`.
pub fn subvec(s: &Vec<u8>, from: usize, to: usize) -> (r: Vec<u8>)
    requires
        from <= to <= s@.len(),
    ensures
        r@ == s@.subrange(from as int, to as int),
{
    let mut r: Vec<u8> = Vec::new();
    let mut i: usize = from;
    while i < to
        invariant
            from <= i <= to <= s@.len(),
            r@ == s@.subrange(from as int, i as int),
        decreases to - i,
    {
        r.push(s[i]);
        i += 1;
        proof {
            assert(r@ =~= s@.subrange(from as int, i as int));
        }
    }
    r
}

fn parse_digits(t: &Vec<u8>, start: usize, max: u32) -> (r: Option<u32>)
    requires
        start <= t@.len(),
    ensures
        ({
            let d = t@.skip(start as int);
            match r {
                Some(v) => d.len() > 0 && all_digits(d) && v == dec_val(d) && v <= max,
                None => d.len() == 0 || !all_digits(d) || dec_val(d) > max,
            }
        }),
{
    let ghost d = t@.skip(start as int);
    let n: usize = t.len();
    if start >= n {
        return None;
    }
    let mut acc: u32 = 0;
    let mut i: usize = start;
    while i < n
        invariant
            start <= i <= n,
            n == t@.len(),
            d == t@.skip(start as int),
            all_digits(d.take(i - start)),
            acc == dec_val(d.take(i - start)),
            acc <= max,
        decreases n - i,
    {
        let b: u8 = t[i];
        proof {
            assert(d[i - start] == t@[i as int]);
        }
        if b < 0x30 || b > 0x39 {
            return None;
        }
        let wide: u64 = (acc as u64) * 10 + ((b - 0x30) as u64);
        proof {
            lemma_dec_val_step(d, i - start);
        }
        if wide > max as u64 {
            proof {
                assert(all_digits(d.take(i - start + 1))) by {
                    assert(forall|j: int|
                        0 <= j < i - start + 1 ==> #[trigger] d.take(i - start + 1)[j] == d[j]);
                }
                if all_digits(d) {
                    lemma_dec_val_prefix_le(d, i - start + 1);
                }
            }
            return None;
        }
        acc = wide as u32;
        i += 1;
    }
    proof {
        assert(d.take(n - start) =~= d);
    }
    Some(acc)
}

/// Parse an unsigned decimal token as `str::parse` does, rejecting values
/// above `max`.
pub fn parse_uint(s: &Vec<u8>, max: u32) -> (r: Option<u32>)
    ensures
        ({
            let sp = spec_parse_uint(s@, max as int);
            match r {
                Some(v) => sp == Some(v as int),
                None => sp is None,
            }
        }),
{
    let start: usize = if s.len() > 0 && s[0] == 0x2b {
        1
    } else {
        0
    };
    proof {
        if s@.len() > 0 && s@[0] == 0x2b {
            assert(s@.skip(1) =~= s@.drop_first());
        } else {
            assert(s@.skip(0) =~= s@);
        }
    }
    parse_digits(s, start, max)
}

/// Append the decimal representation of `n` to `out`.
pub fn push_dec(n: u32, out: &mut Vec<u8>)
    ensures
        final(out)@ == old(out)@ + dec_rep(n as nat),
    decreases n,
{
    if n >= 10 {
        push_dec(n / 10, out);
        out.push(0x30 + (n % 10) as u8);
        proof {
            assert(out@ =~= old(out)@ + dec_rep(n as nat));
        }
    } else {
        out.push(0x30 + n as u8);
        proof {
            assert(out@ =~= old(out)@ + dec_rep(n as nat));
        }
    }
}

} // verus!
