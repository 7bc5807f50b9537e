use vstd::prelude::*;
use vstd::string::*;

verus! {

// ---------------------------------------------------------------------------
// Substring occurrence
// ---------------------------------------------------------------------------

/// The pattern `p` occurs in `s` starting at position `i`.
pub open spec fn occurs_at(s: Seq<char>, p: Seq<char>, i: int) -> bool {
    0 <= i && i + p.len() <= s.len() && s.subrange(i, i + p.len() as int) == p
}

/// The pattern `p` occurs somewhere in `s`.
pub open spec fn has_sub(s: Seq<char>, p: Seq<char>) -> bool {
    exists|i: int| occurs_at(s, p, i)
}

/// Does `p` occur in `s` starting exactly at position `i`?
fn match_at(s: &str, p: &str, i: usize, slen: usize, plen: usize) -> (r: bool)
    requires
        slen == s@.len(),
        plen == p@.len(),
        i + plen <= slen,
    ensures
        r == occurs_at(s@, p@, i as int),
{
    let mut k: usize = 0;
    while k < plen
        invariant
            slen == s@.len(),
            plen == p@.len(),
            i + plen <= slen,
            k <= plen,
            forall|j: int| 0 <= j < k ==> s@[i + j] == p@[j],
        decreases plen - k,
    {
        if s.get_char(i + k) != p.get_char(k) {
            assert(!occurs_at(s@, p@, i as int)) by {
                if occurs_at(s@, p@, i as int) {
                    assert(s@.subrange(i as int, i + plen as int)[k as int] == s@[i + k]);
                }
            }
            return false;
        }
        k += 1;
    }
    assert(s@.subrange(i as int, i + plen as int) =~= p@);
    true
}

/// Find the first occurrence of `p` in `s` at or after position `from`.
pub fn find_from(s: &str, p: &str, from: usize) -> (r: Option<usize>)
    requires
        from <= s@.len(),
    ensures
        match r {
            Option::Some(i) => from <= i && occurs_at(s@, p@, i as int) && forall|j: int|
                from <= j < i ==> !occurs_at(s@, p@, j),
            Option::None => forall|j: int| from <= j ==> !occurs_at(s@, p@, j),
        },
{
    let slen = s.unicode_len();
    let plen = p.unicode_len();
    if plen == 0 {
        assert(occurs_at(s@, p@, from as int)) by {
            assert(s@.subrange(from as int, from as int) =~= p@);
        }
        return Option::Some(from);
    }
    if plen > slen {
        return Option::None;
    }
    let mut i: usize = from;
    while i <= slen - plen
        invariant
            slen == s@.len(),
            plen == p@.len(),
            0 < plen <= slen,
            from <= i,
            i <= slen,
            forall|j: int| from <= j < i ==> !occurs_at(s@, p@, j),
        decreases slen - i,
    {
        if match_at(s, p, i, slen, plen) {
            return Option::Some(i);
        }
        i += 1;
    }
    Option::None
}

/// Does `p` occur anywhere in `s`?
pub fn str_has(s: &str, p: &str) -> (r: bool)
    ensures
        r == has_sub(s@, p@),
{
    find_from(s, p, 0).is_some()
}

// ---------------------------------------------------------------------------
// Finding one character
// ---------------------------------------------------------------------------

/// The position of the first occurrence of `c` in `s` at or after `from`, or
/// the length of `s` when none follows.
pub open spec fn first_char_from(s: Seq<char>, c: char, from: int) -> int
    decreases s.len() - from,
{
    if from < 0 || from >= s.len() {
        s.len() as int
    } else if s[from] == c {
        from
    } else {
        first_char_from(s, c, from + 1)
    }
}

/// Find the first occurrence of the character `c` in `s` at or after `from`;
/// the length of `s` means there is none.
pub fn find_char(s: &str, c: char, from: usize) -> (j: usize)
    requires
        from <= s@.len(),
    ensures
        j == first_char_from(s@, c, from as int),
        from <= j <= s@.len(),
        j < s@.len() ==> s@[j as int] == c,
        forall|k: int| from <= k < j ==> s@[k] != c,
{
    let slen = s.unicode_len();
    let mut j: usize = from;
    loop
        invariant
            slen == s@.len(),
            from <= j <= slen,
            first_char_from(s@, c, from as int) == first_char_from(s@, c, j as int),
            forall|k: int| from <= k < j ==> s@[k] != c,
        decreases slen - j,
    {
        if j == slen {
            return j;
        }
        if s.get_char(j) == c {
            return j;
        }
        proof {
            assert(first_char_from(s@, c, j as int) == first_char_from(s@, c, j + 1));
        }
        j += 1;
    }
}

// ---------------------------------------------------------------------------
// Replacing every occurrence of a pattern
// ---------------------------------------------------------------------------

/// The result of replacing, left to right and without overlap, every
/// occurrence of `p` in `s` by `r` (the empty pattern replaces nothing).
pub open spec fn replace_spec(s: Seq<char>, p: Seq<char>, r: Seq<char>) -> Seq<char>
    decreases s.len(),
{
    if p.len() == 0 || s.len() < p.len() {
        s
    } else if s.subrange(0, p.len() as int) == p {
        r + replace_spec(s.skip(p.len() as int), p, r)
    } else {
        seq![s[0]] + replace_spec(s.skip(1), p, r)
    }
}

/// An occurrence inside a suffix of `s` is an occurrence of `s` shifted over.
proof fn lemma_occurs_skip(s: Seq<char>, p: Seq<char>, i: int, k: int)
    requires
        0 <= i <= s.len(),
        0 <= k,
    ensures
        occurs_at(s.skip(i), p, k) == occurs_at(s, p, i + k),
{
    if k + p.len() <= s.len() - i {
        assert(s.skip(i).subrange(k, k + p.len() as int) =~= s.subrange(
            i + k,
            i + k + p.len() as int,
        ));
    }
}

/// A string without any occurrence of the pattern is left unchanged.
pub proof fn lemma_replace_none(s: Seq<char>, p: Seq<char>, r: Seq<char>)
    requires
        p.len() > 0,
        !has_sub(s, p),
    ensures
        replace_spec(s, p, r) == s,
    decreases s.len(),
{
    if s.len() >= p.len() {
        assert(!occurs_at(s, p, 0));
        assert(s.subrange(0, p.len() as int) != p);
        assert(!has_sub(s.skip(1), p)) by {
            if has_sub(s.skip(1), p) {
                let k = choose|k: int| occurs_at(s.skip(1), p, k);
                lemma_occurs_skip(s, p, 1, k);
            }
        }
        lemma_replace_none(s.skip(1), p, r);
        assert(seq![s[0]] + s.skip(1) =~= s);
    }
}

/// Up to the first occurrence of the pattern, replacement copies the text;
/// at the occurrence it inserts the replacement and goes on after it.
proof fn lemma_replace_step(s: Seq<char>, p: Seq<char>, r: Seq<char>, i: int, j: int)
    requires
        p.len() > 0,
        0 <= i <= j,
        occurs_at(s, p, j),
        forall|k: int| i <= k < j ==> !occurs_at(s, p, k),
    ensures
        replace_spec(s.skip(i), p, r) == s.subrange(i, j) + r + replace_spec(
            s.skip(j + p.len()),
            p,
            r,
        ),
    decreases j - i,
{
    if i == j {
        let t = s.skip(i);
        assert(t.subrange(0, p.len() as int) =~= s.subrange(i, i + p.len() as int));
        assert(t.subrange(0, p.len() as int) == p);
        assert(t.skip(p.len() as int) =~= s.skip(i + p.len() as int));
        assert(s.subrange(i, j) =~= Seq::<char>::empty());
        assert(s.subrange(i, j) + r =~= r);
        assert(replace_spec(t, p, r) == r + replace_spec(s.skip(j + p.len()), p, r));
        assert(s.subrange(i, j) + r + replace_spec(s.skip(j + p.len()), p, r) =~= r
            + replace_spec(s.skip(j + p.len()), p, r));
    } else {
        let t = s.skip(i);
        assert(t.len() >= p.len());
        assert(!occurs_at(s, p, i));
        assert(t.subrange(0, p.len() as int) =~= s.subrange(i, i + p.len() as int));
        assert(t.subrange(0, p.len() as int) != p);
        assert(t.skip(1) =~= s.skip(i + 1));
        lemma_replace_step(s, p, r, i + 1, j);
        assert(seq![s[i]] + s.subrange(i + 1, j) =~= s.subrange(i, j));
        assert(seq![t[0]] + (s.subrange(i + 1, j) + r + replace_spec(s.skip(j + p.len()), p, r))
            =~= s.subrange(i, j) + r + replace_spec(s.skip(j + p.len()), p, r));
    }
}

/// Replace every occurrence of `p` in `s` by `rep`, left to right.
pub fn replace_all(s: &str, p: &str, rep: &str) -> (r: String)
    requires
        p@.len() > 0,
    ensures
        r@ == replace_spec(s@, p@, rep@),
{
    let slen = s.unicode_len();
    let plen = p.unicode_len();
    let mut out = String::new();
    let mut i: usize = 0;
    proof {
        assert(s@.skip(0) =~= s@);
        assert(out@ + replace_spec(s@, p@, rep@) =~= replace_spec(s@, p@, rep@));
    }
    loop
        invariant
            slen == s@.len(),
            plen == p@.len(),
            plen > 0,
            i <= slen,
            replace_spec(s@, p@, rep@) == out@ + replace_spec(s@.skip(i as int), p@, rep@),
        decreases slen - i,
    {
        match find_from(s, p, i) {
            Option::Some(j) => {
                proof {
                    lemma_replace_step(s@, p@, rep@, i as int, j as int);
                }
                out.append(s.substring_char(i, j));
                out.append(rep);
                i = j + plen;
            },
            Option::None => {
                proof {
                    assert(!has_sub(s@.skip(i as int), p@)) by {
                        if has_sub(s@.skip(i as int), p@) {
                            let k = choose|k: int| occurs_at(s@.skip(i as int), p@, k);
                            lemma_occurs_skip(s@, p@, i as int, k);
                        }
                    }
                    lemma_replace_none(s@.skip(i as int), p@, rep@);
                    assert(s@.subrange(i as int, slen as int) =~= s@.skip(i as int));
                }
                out.append(s.substring_char(i, slen));
                return out;
            },
        }
    }
}

// ---------------------------------------------------------------------------
// Decimal numbers
// ---------------------------------------------------------------------------

/// Is `c` a decimal digit?
pub open spec fn is_digit(c: char) -> bool {
    48 <= c as u32 <= 57
}

/// The value of one decimal digit.
pub open spec fn digit_val(c: char) -> int {
    c as u32 - 48
}

/// The value of a digit string, most significant digit first.
pub open spec fn digits_val(s: Seq<char>) -> int
    decreases s.len(),
{
    if s.len() == 0 {
        0
    } else {
        digits_val(s.drop_last()) * 10 + digit_val(s.last())
    }
}

/// Is `s` a non-empty string of decimal digits?
pub open spec fn all_digits(s: Seq<char>) -> bool {
    s.len() > 0 && forall|i: int| 0 <= i < s.len() ==> is_digit(s[i])
}

/// What parsing `s` as an unsigned 32-bit decimal number yields: the value of
/// its digits, or nothing when `s` is not all digits or the value does not fit.
pub open spec fn parse_u32_spec(s: Seq<char>) -> Option<u32> {
    if all_digits(s) && digits_val(s) <= u32::MAX {
        Option::Some(digits_val(s) as u32)
    } else {
        Option::None
    }
}

proof fn lemma_digits_val_nonneg(s: Seq<char>)
    requires
        forall|i: int| 0 <= i < s.len() ==> is_digit(s[i]),
    ensures
        digits_val(s) >= 0,
    decreases s.len(),
{
    if s.len() > 0 {
        lemma_digits_val_nonneg(s.drop_last());
    }
}

/// A digit string's value only grows as more digits follow.
proof fn lemma_digits_val_prefix(s: Seq<char>, k: int)
    requires
        forall|i: int| 0 <= i < s.len() ==> is_digit(s[i]),
        0 <= k < s.len(),
    ensures
        digits_val(s) >= digits_val(s.take(k)),
    decreases s.len() - k,
{
    let t = s.take(k + 1);
    assert(t.drop_last() =~= s.take(k));
    lemma_digits_val_nonneg(s.take(k));
    assert(digits_val(t) >= digits_val(s.take(k)));
    if k + 1 == s.len() {
        assert(t =~= s);
    } else {
        lemma_digits_val_prefix(s, k + 1);
    }
}

/// Parse a non-empty, all-digit decimal string as a `u32`.
pub fn parse_u32(s: &str) -> (r: Option<u32>)
    ensures
        r == parse_u32_spec(s@),
{
    let slen = s.unicode_len();
    if slen == 0 {
        return Option::None;
    }
    let mut i: usize = 0;
    while i < slen
        invariant
            slen == s@.len(),
            i <= slen,
            forall|j: int| 0 <= j < i ==> is_digit(s@[j]),
        decreases slen - i,
    {
        let v = s.get_char(i) as u32;
        if v < 48 || v > 57 {
            return Option::None;
        }
        i += 1;
    }
    let mut n: u32 = 0;
    i = 0;
    proof {
        assert(s@.take(0) =~= Seq::<char>::empty());
    }
    while i < slen
        invariant
            slen == s@.len(),
            0 < slen,
            i <= slen,
            all_digits(s@),
            n == digits_val(s@.take(i as int)),
        decreases slen - i,
    {
        let c = s.get_char(i);
        let d = c as u32 - 48;
        proof {
            assert(s@.take(i + 1).drop_last() =~= s@.take(i as int));
            assert(s@.take(i + 1).last() == s@[i as int]);
        }
        if n > (u32::MAX - d) / 10 {
            proof {
                lemma_digits_val_nonneg(s@.take(i + 1));
                if i + 1 < slen {
                    lemma_digits_val_prefix(s@, i + 1);
                    assert(s@.take(slen as int) =~= s@);
                } else {
                    assert(s@.take(i + 1) =~= s@);
                }
                assert(digits_val(s@) > u32::MAX);
            }
            return Option::None;
        }
        n = n * 10 + d;
        i += 1;
    }
    proof {
        assert(s@.take(slen as int) =~= s@);
    }
    Option::Some(n)
}

/// The decimal rendering of one digit.
pub open spec fn digit_char(d: int) -> char {
    if d == 0 {
        '0'
    } else if d == 1 {
        '1'
    } else if d == 2 {
        '2'
    } else if d == 3 {
        '3'
    } else if d == 4 {
        '4'
    } else if d == 5 {
        '5'
    } else if d == 6 {
        '6'
    } else if d == 7 {
        '7'
    } else if d == 8 {
        '8'
    } else {
        '9'
    }
}

/// The decimal rendering of a natural number, most significant digit first.
pub open spec fn dec_spec(n: int) -> Seq<char>
    decreases n,
{
    if n < 10 {
        seq![digit_char(n)]
    } else {
        dec_spec(n / 10) + seq![digit_char(n % 10)]
    }
}

fn digit_str(d: u32) -> (r: &'static str)
    requires
        d < 10,
    ensures
        r@ == seq![digit_char(d as int)],
{
    proof {
        reveal_strlit("0");
        reveal_strlit("1");
        reveal_strlit("2");
        reveal_strlit("3");
        reveal_strlit("4");
        reveal_strlit("5");
        reveal_strlit("6");
        reveal_strlit("7");
        reveal_strlit("8");
        reveal_strlit("9");
    }
    let r = match d {
        0 => "0",
        1 => "1",
        2 => "2",
        3 => "3",
        4 => "4",
        5 => "5",
        6 => "6",
        7 => "7",
        8 => "8",
        _ => "9",
    };
    proof {
        assert(r@ =~= seq![digit_char(d as int)]);
    }
    r
}

fn push_decimal(n: u32, out: &mut String)
    ensures
        final(out)@ == old(out)@ + dec_spec(n as int),
    decreases n,
{
    if n >= 10 {
        push_decimal(n / 10, out);
    }
    out.append(digit_str(n % 10));
    proof {
        if n < 10 {
            assert(old(out)@ + seq![digit_char((n % 10) as int)] =~= old(out)@ + dec_spec(
                n as int,
            ));
        } else {
            assert(old(out)@ + dec_spec(n as int / 10) + seq![digit_char((n % 10) as int)]
                =~= old(out)@ + dec_spec(n as int));
        }
    }
}

/// Render a `u32` in decimal.
pub fn u32_to_string(n: u32) -> (r: String)
    ensures
        r@ == dec_spec(n as int),
{
    let mut out = String::new();
    push_decimal(n, &mut out);
    proof {
        assert(Seq::<char>::empty() + dec_spec(n as int) =~= dec_spec(n as int));
    }
    out
}

} // verus!
