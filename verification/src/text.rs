use vstd::prelude::*;

verus! {

/// The characters of `needle` occur in `hay` starting at position `i`.
pub open spec fn match_at(hay: Seq<char>, needle: Seq<char>, i: int) -> bool {
    forall|j: int| 0 <= j < needle.len() ==> hay[i + j] == needle[j]
}

/// `needle` occurs somewhere in `hay` as a contiguous run of characters.
/// The empty needle occurs in every text.
pub open spec fn contains_sub(hay: Seq<char>, needle: Seq<char>) -> bool {
    exists|i: int| 0 <= i && i + needle.len() <= hay.len() && match_at(hay, needle, i)
}

/// `c` is an ASCII decimal digit.
pub open spec fn is_digit(c: char) -> bool {
    48 <= c as u32 <= 57
}

/// Every character of `s` is an ASCII decimal digit.
pub open spec fn all_digits(s: Seq<char>) -> bool {
    forall|i: int| 0 <= i < s.len() ==> is_digit(s[i])
}

/// The value of `s` read as a decimal numeral, most significant digit
/// first; meaningful when `all_digits(s)` holds.
pub open spec fn digits_val(s: Seq<char>) -> int
    decreases s.len(),
{
    if s.len() == 0 {
        0
    } else {
        digits_val(s.drop_last()) * 10 + (s.last() as u32 - 48)
    }
}

/// The digits of a numeral: everything after one optional leading `+`.
pub open spec fn digits_part(s: Seq<char>) -> Seq<char> {
    if s.len() > 0 && s[0] == '+' {
        s.drop_first()
    } else {
        s
    }
}

/// What parsing `s` as a `u32` yields: after an optional leading `+`, one
/// or more decimal digits whose value fits; anything else is rejected.
pub open spec fn u32_of_str(s: Seq<char>) -> Option<u32> {
    if digits_part(s).len() > 0 && all_digits(digits_part(s)) && digits_val(digits_part(s))
        <= u32::MAX {
        Some(digits_val(digits_part(s)) as u32)
    } else {
        None
    }
}

/// A numeral of digits has a value of at least zero.
pub proof fn lemma_digits_val_nonneg(s: Seq<char>)
    requires
        all_digits(s),
    ensures
        digits_val(s) >= 0,
    decreases s.len(),
{
    if s.len() > 0 {
        lemma_digits_val_nonneg(s.drop_last());
    }
}

/// Reading more digits of a numeral never shrinks its value.
pub proof fn lemma_digits_val_grows(s: Seq<char>, i: int)
    requires
        all_digits(s),
        0 <= i <= s.len(),
    ensures
        digits_val(s.take(i)) <= digits_val(s),
    decreases s.len() - i,
{
    if i == s.len() {
        assert(s.take(i) =~= s);
    } else {
        assert(s.take(i + 1).drop_last() =~= s.take(i));
        assert(s.take(i + 1).last() == s[i]);
        assert(forall|k: int| 0 <= k < i ==> s.take(i)[k] == s[k]);
        lemma_digits_val_nonneg(s.take(i));
        lemma_digits_val_grows(s, i + 1);
    }
}

/// Parses a `u32` the way the standard numeric parser reads it: an optional
/// leading `+`, then one or more decimal digits; rejects anything else and
/// any value past the `u32` range.
pub fn parse_u32(s: &str) -> (r: Option<u32>)
    ensures
        r == u32_of_str(s@),
{
    let cs = chars_of(s);
    let start: usize = if cs.len() > 0 && cs[0] == '+' {
        1
    } else {
        0
    };
    let ghost ds = digits_part(s@);
    proof {
        assert(ds =~= s@.subrange(start as int, s@.len() as int));
    }
    if cs.len() == start {
        return None;
    }
    let mut val: u64 = 0;
    let mut i: usize = start;
    while i < cs.len()
        invariant
            start <= i <= cs@.len(),
            cs@ == s@,
            ds == digits_part(s@),
            ds == s@.subrange(start as int, s@.len() as int),
            all_digits(ds.take(i - start)),
            val == digits_val(ds.take(i - start)),
            val <= u32::MAX,
        decreases cs@.len() - i,
    {
        let c = cs[i];
        let d = c as u32;
        proof {
            assert(ds[i - start] == s@[i as int]);
        }
        if d < 48 || d > 57 {
            proof {
                assert(!is_digit(ds[i - start]));
                assert(!all_digits(ds));
            }
            return None;
        }
        proof {
            assert(ds.take(i - start + 1).drop_last() =~= ds.take(i - start));
            assert(ds.take(i - start + 1).last() == ds[i - start]);
        }
        val = val * 10 + ((d - 48) as u64);
        if val > 0xFFFF_FFFF {
            proof {
                if all_digits(ds) {
                    lemma_digits_val_grows(ds, i - start + 1);
                }
            }
            return None;
        }
        i = i + 1;
    }
    proof {
        assert(ds.take(ds.len() as int) =~= ds);
    }
    Some(val as u32)
}

/// The characters of a string slice, in order.
pub fn chars_of(s: &str) -> (v: Vec<char>)
    ensures
        v@ == s@,
{
    let mut v: Vec<char> = Vec::new();
    for c in it: s.chars()
        invariant
            it.seq() == s@,
            v@ == it.seq().take(it.index() as int),
    {
        v.push(c);
    }
    proof {
        assert(v@ =~= s@);
    }
    v
}

/// Whether two string slices hold the same characters.
pub fn str_eq(a: &str, b: &str) -> (r: bool)
    ensures
        r == (a@ == b@),
{
    let va = chars_of(a);
    let vb = chars_of(b);
    if va.len() != vb.len() {
        return false;
    }
    let mut i: usize = 0;
    while i < va.len()
        invariant
            0 <= i <= va@.len(),
            va@.len() == vb@.len(),
            va@ == a@,
            vb@ == b@,
            forall|k: int| 0 <= k < i ==> va@[k] == vb@[k],
        decreases va@.len() - i,
    {
        if va[i] != vb[i] {
            return false;
        }
        i = i + 1;
    }
    proof {
        assert(a@ =~= b@);
    }
    true
}

/// Whether `hay` contains `needle` as a literal, case-sensitive substring.
pub fn str_contains(hay: &str, needle: &str) -> (r: bool)
    ensures
        r == contains_sub(hay@, needle@),
{
    let h = chars_of(hay);
    let n = chars_of(needle);
    if n.len() > h.len() {
        return false;
    }
    let mut i: usize = 0;
    while i <= h.len() - n.len()
        invariant
            0 <= i <= h@.len() - n@.len() + 1,
            n@.len() <= h@.len(),
            h@ == hay@,
            n@ == needle@,
            forall|k: int| 0 <= k < i ==> !match_at(h@, n@, k),
        decreases h@.len() - n@.len() - i + 1,
    {
        let mut j: usize = 0;
        let mut hit = true;
        while j < n.len()
            invariant
                0 <= j <= n@.len(),
                0 <= i,
                i + n@.len() <= h@.len(),
                h@.len() <= usize::MAX,
                h@ == hay@,
                n@ == needle@,
                hit ==> forall|k: int| 0 <= k < j ==> h@[i + k] == n@[k],
                !hit ==> exists|k: int| 0 <= k < n@.len() && h@[i + k] != n@[k],
            decreases n@.len() - j,
        {
            if h[i + j] != n[j] {
                proof {
                    assert(h@[i + j] != n@[j as int]);
                }
                hit = false;
                j = n.len();
            } else {
                j = j + 1;
            }
        }
        if hit {
            proof {
                assert(match_at(hay@, needle@, i as int));
            }
            return true;
        }
        proof {
            let k = choose|k: int| 0 <= k < n@.len() && h@[i + k] != n@[k];
            assert(!match_at(h@, n@, i as int));
        }
        i = i + 1;
    }
    false
}

} // verus!
