//! Canonical decimal rendering and scanning of `u64` values over ASCII
//! bytes, with the round-trip lemmas that the token payload codec rests on.
use vstd::prelude::*;

verus! {

/// An ASCII decimal digit.
pub open spec fn is_digit(b: u8) -> bool {
    48 <= b <= 57
}

/// The canonical decimal rendering of `n`: no sign, no leading zero.
pub open spec fn dec_of(n: u64) -> Seq<u8>
    decreases n,
{
    if n < 10 {
        seq![(48 + n) as u8]
    } else {
        dec_of((n / 10) as u64) + seq![(48 + n % 10) as u8]
    }
}

/// The numeric value of a sequence of decimal digit bytes.
pub open spec fn dec_val(s: Seq<u8>) -> nat
    decreases s.len(),
{
    if s.len() == 0 {
        0
    } else {
        dec_val(s.drop_last()) * 10 + (if is_digit(s.last()) {
            (s.last() - 48) as nat
        } else {
            0
        })
    }
}

pub open spec fn all_digits(s: Seq<u8>) -> bool {
    forall|i: int| 0 <= i < s.len() ==> is_digit(#[trigger] s[i])
}

/// A digit run that `dec_of` can produce: nonempty, and a leading zero only
/// for the single digit `0`.
pub open spec fn canonical_dec(s: Seq<u8>) -> bool {
    &&& s.len() > 0
    &&& all_digits(s)
    &&& (s.len() > 1 ==> s[0] != 48)
}

pub proof fn lemma_dec_of_canonical(n: u64)
    ensures
        canonical_dec(dec_of(n)),
        n >= 1 ==> dec_of(n)[0] != 48,
    decreases n,
{
    if n >= 10 {
        lemma_dec_of_canonical((n / 10) as u64);
    }
}

pub proof fn lemma_dec_val_of(n: u64)
    ensures
        dec_val(dec_of(n)) == n,
    decreases n,
{
    if n < 10 {
        let s = dec_of(n);
        assert(s.drop_last() =~= Seq::<u8>::empty());
        assert(dec_val(s.drop_last()) == 0);
        assert(s.last() == (48 + n) as u8);
        assert(dec_val(s) == (s.last() - 48) as nat);
    } else {
        lemma_dec_val_of((n / 10) as u64);
        let a = dec_of((n / 10) as u64);
        let s = dec_of(n);
        assert(s.drop_last() =~= a);
        assert(s.last() == (48 + n % 10) as u8);
        assert(dec_val(s) == dec_val(a) * 10 + (s.last() - 48) as nat);
        vstd::arithmetic::div_mod::lemma_fundamental_div_mod(n as int, 10);
    }
}

proof fn lemma_dec_val_positive(s: Seq<u8>)
    requires
        all_digits(s),
        s.len() >= 1,
        s[0] != 48,
    ensures
        dec_val(s) >= 1,
    decreases s.len(),
{
    if s.len() > 1 {
        assert(all_digits(s.drop_last())) by {
            assert(forall|i: int|
                0 <= i < s.drop_last().len() ==> is_digit(#[trigger] s.drop_last()[i]));
        }
        lemma_dec_val_positive(s.drop_last());
    }
}

pub proof fn lemma_dec_of_val(s: Seq<u8>)
    requires
        canonical_dec(s),
        dec_val(s) <= u64::MAX,
    ensures
        dec_of(dec_val(s) as u64) == s,
    decreases s.len(),
{
    let v = dec_val(s) as u64;
    if s.len() == 1 {
        assert(dec_val(s) == (s.last() - 48) as nat);
        assert(dec_of(v) =~= s);
    } else {
        let a = s.drop_last();
        let d = (s.last() - 48) as nat;
        assert(all_digits(a)) by {
            assert(forall|i: int| 0 <= i < a.len() ==> is_digit(#[trigger] a[i]));
        }
        assert(canonical_dec(a));
        lemma_dec_val_positive(a);
        assert(dec_val(s) == dec_val(a) * 10 + d);
        assert(dec_val(a) * 10 <= dec_val(s)) by (nonlinear_arith)
            requires dec_val(s) == dec_val(a) * 10 + d, d >= 0;
        assert(dec_val(a) <= dec_val(s)) by (nonlinear_arith)
            requires dec_val(a) * 10 <= dec_val(s), dec_val(a) >= 0;
        lemma_dec_of_val(a);
        assert(v >= 10) by {
            assert(dec_val(a) >= 1);
            assert(dec_val(a) * 10 >= 10) by (nonlinear_arith)
                requires dec_val(a) >= 1;
        }
        assert((v / 10) as nat == dec_val(a) && (v % 10) as nat == d) by (nonlinear_arith)
            requires
                v as nat == dec_val(a) * 10 + d,
                0 <= d < 10,
                dec_val(a) >= 0;
        assert(dec_of(v) =~= s);
    }
}

/// The value of a prefix of a digit run never exceeds the value of the run.
pub proof fn lemma_dec_val_prefix(s: Seq<u8>, k: int)
    requires
        all_digits(s),
        0 <= k <= s.len(),
    ensures
        dec_val(s.subrange(0, k)) <= dec_val(s),
    decreases s.len(),
{
    if k < s.len() {
        let a = s.drop_last();
        assert(all_digits(a)) by {
            assert(forall|i: int| 0 <= i < a.len() ==> is_digit(#[trigger] a[i]));
        }
        assert(a.subrange(0, k) =~= s.subrange(0, k));
        lemma_dec_val_prefix(a, k);
        assert(dec_val(a) <= dec_val(a) * 10) by (nonlinear_arith)
            requires dec_val(a) >= 0;
    } else {
        assert(s.subrange(0, k) =~= s);
    }
}

/// Renders `n` as its canonical decimal digit bytes.
pub fn u64_to_dec_bytes(n: u64) -> (r: Vec<u8>)
    ensures
        r@ == dec_of(n),
    decreases n,
{
    if n < 10 {
        let mut v: Vec<u8> = Vec::new();
        let b: u8 = 48 + (n as u8);
        v.push(b);
        assert(v@ =~= dec_of(n));
        v
    } else {
        let mut v = u64_to_dec_bytes(n / 10);
        let b: u8 = 48 + ((n % 10) as u8);
        v.push(b);
        assert(v@ =~= dec_of(n));
        v
    }
}

/// Scans a maximal canonical decimal run at `start` and returns its value
/// and the position just past it. Returns `None` when no digit stands at
/// `start`, on a redundant leading zero, and when the value exceeds `u64`.
#[verifier::loop_isolation(false)]
pub fn scan_dec_u64(s: &[u8], start: usize) -> (r: Option<(u64, usize)>)
    requires
        start <= s@.len(),
    ensures
        r is Some ==> ({
            let (v, end) = r->Some_0;
            &&& start < end <= s@.len()
            &&& s@.subrange(start as int, end as int) == dec_of(v)
            &&& (end < s@.len() ==> !is_digit(s@[end as int]))
        }),
        forall|n: u64|
            start + dec_of(n).len() <= s@.len()
                && s@.subrange(start as int, start + dec_of(n).len()) == #[trigger] dec_of(n)
                && (start + dec_of(n).len() < s@.len() ==> !is_digit(
                s@[start + dec_of(n).len()],
            )) ==> r == Some((n, (start + dec_of(n).len()) as usize)),
{
    let len = s.len();
    let mut j = start;
    while j < len && 48 <= s[j] && s[j] <= 57
        invariant
            start <= j <= len,
            len == s@.len(),
            forall|k: int| start <= k < j ==> is_digit(#[trigger] s@[k]),
        decreases len - j,
    {
        j += 1;
    }
    let ghost run = s@.subrange(start as int, j as int);
    proof {
        assert(all_digits(run));
        assert(j < len ==> !is_digit(s@[j as int]));
        // Any canonical run at `start` that is followed by a non-digit or by
        // the end coincides with the maximal run.
        assert forall|n: u64|
            start + dec_of(n).len() <= s@.len()
                && s@.subrange(start as int, start + dec_of(n).len()) == #[trigger] dec_of(n)
                && (start + dec_of(n).len() < s@.len() ==> !is_digit(
                s@[start + dec_of(n).len()],
            )) implies j == start + dec_of(n).len() by {
            lemma_dec_of_canonical(n);
            let e = start + dec_of(n).len();
            if j < e {
                assert(is_digit(dec_of(n)[j - start]));
                assert(s@[j as int] == dec_of(n)[j - start]);
            }
            if j > e {
                assert(is_digit(s@[e]));
            }
        }
    }
    if j == start {
        proof {
            assert forall|n: u64|
                start + dec_of(n).len() <= s@.len()
                    && s@.subrange(start as int, start + dec_of(n).len()) == #[trigger] dec_of(n)
                    && (start + dec_of(n).len() < s@.len() ==> !is_digit(
                    s@[start + dec_of(n).len()],
                )) implies false by {
                lemma_dec_of_canonical(n);
            }
        }
        return None;
    }
    if s[start] == 48 && j > start + 1 {
        proof {
            assert forall|n: u64|
                start + dec_of(n).len() <= s@.len()
                    && s@.subrange(start as int, start + dec_of(n).len()) == #[trigger] dec_of(n)
                    && (start + dec_of(n).len() < s@.len() ==> !is_digit(
                    s@[start + dec_of(n).len()],
                )) implies false by {
                lemma_dec_of_canonical(n);
                assert(run =~= dec_of(n));
                assert(dec_of(n)[0] == 48);
            }
        }
        return None;
    }
    proof {
        assert(canonical_dec(run));
    }
    let mut v: u64 = 0;
    let mut k = start;
    while k < j
        invariant
            start <= k <= j <= len,
            len == s@.len(),
            all_digits(run),
            canonical_dec(run),
            run == s@.subrange(start as int, j as int),
            forall|i: int| start <= i < j ==> is_digit(#[trigger] s@[i]),
            v as nat == dec_val(s@.subrange(start as int, k as int)),
        decreases j - k,
    {
        let d: u8 = s[k] - 48;
        let ghost pre = s@.subrange(start as int, k as int);
        let ghost cur = s@.subrange(start as int, k + 1);
        proof {
            assert(cur.drop_last() =~= pre);
            assert(cur.last() == s@[k as int]);
        }
        let m = match v.checked_mul(10) {
            Some(m) => m,
            None => {
                proof {
                    overflow_excludes_canonical(s@, start as int, j as int, run, v as nat, k as int);
                }
                return None;
            },
        };
        let w = match m.checked_add(d as u64) {
            Some(w) => w,
            None => {
                proof {
                    overflow_excludes_canonical(s@, start as int, j as int, run, v as nat, k as int);
                }
                return None;
            },
        };
        v = w;
        k += 1;
    }
    proof {
        assert(s@.subrange(start as int, k as int) =~= run);
        lemma_dec_of_val(run);
        assert(dec_of(v) == run);
        lemma_dec_val_of(v);
        assert forall|n: u64|
            start + dec_of(n).len() <= s@.len()
                && s@.subrange(start as int, start + dec_of(n).len()) == #[trigger] dec_of(n)
                && (start + dec_of(n).len() < s@.len() ==> !is_digit(
                s@[start + dec_of(n).len()],
            )) implies v == n by {
            assert(run =~= dec_of(n));
            lemma_dec_val_of(n);
        }
    }
    Some((v, j))
}

/// When the accumulated value can no longer grow by one digit inside `u64`,
/// no `u64` has the scanned run as its canonical rendering.
proof fn overflow_excludes_canonical(
    s: Seq<u8>,
    start: int,
    j: int,
    run: Seq<u8>,
    v: nat,
    k: int,
)
    requires
        0 <= start <= k < j <= s.len(),
        run == s.subrange(start, j),
        all_digits(run),
        v == dec_val(s.subrange(start, k)),
        v * 10 + (if is_digit(s[k]) { (s[k] - 48) as nat } else { 0 }) > u64::MAX,
    ensures
        forall|n: u64|
            start + dec_of(n).len() <= s.len()
                && s.subrange(start, start + dec_of(n).len()) == #[trigger] dec_of(n)
                && (start + dec_of(n).len() < s.len() ==> !is_digit(s[start + dec_of(n).len()]))
            ==> j != start + dec_of(n).len(),
{
    assert forall|n: u64|
        start + dec_of(n).len() <= s.len()
            && s.subrange(start, start + dec_of(n).len()) == #[trigger] dec_of(n)
            && (start + dec_of(n).len() < s.len() ==> !is_digit(s[start + dec_of(n).len()]))
            && j == start + dec_of(n).len() implies false by {
        assert(run =~= dec_of(n));
        let cur = s.subrange(start, k + 1);
        assert(cur.drop_last() =~= s.subrange(start, k));
        assert(cur.last() == s[k]);
        assert(dec_val(cur) == v * 10 + (s[k] - 48));
        assert(cur =~= run.subrange(0, k + 1 - start));
        lemma_dec_val_prefix(run, k + 1 - start);
        lemma_dec_val_of(n);
        assert(dec_val(run) == n);
        assert(dec_val(cur) <= n);
    }
}

} // verus!
