//! Reading the page count that the service sends with the first page.
use vstd::prelude::*;

verus! {

pub open spec fn is_digit(b: u8) -> bool {
    48 <= b && b <= 57
}

/// The number that the decimal digits `s` spell.
pub open spec fn digits_value(s: Seq<u8>) -> nat
    decreases s.len(),
{
    if s.len() == 0 {
        0
    } else {
        digits_value(s.drop_last()) * 10 + (s.last() - 48) as nat
    }
}

/// `s` without a leading `+`.
pub open spec fn unsigned_body(s: Seq<u8>) -> Seq<u8> {
    if s.len() > 0 && s[0] == 43u8 {
        s.drop_first()
    } else {
        s
    }
}

/// `s` is an unsigned decimal number that fits in `usize`: an optional `+`,
/// then one or more digits.
pub open spec fn is_usize_text(s: Seq<u8>) -> bool {
    let d = unsigned_body(s);
    d.len() > 0 && (forall|i: int| 0 <= i < d.len() ==> is_digit(#[trigger] d[i]))
        && digits_value(d) <= usize::MAX
}

/// The page count that a header value announces; one page when the header
/// is missing or does not hold a number.
pub open spec fn announced_pages(header: Option<Seq<u8>>) -> nat {
    match header {
        Some(s) => if is_usize_text(s) {
            digits_value(unsigned_body(s))
        } else {
            1
        },
        None => 1,
    }
}

proof fn lemma_digits_value_grows(s: Seq<u8>, b: u8)
    requires
        is_digit(b),
    ensures
        digits_value(s.push(b)) >= digits_value(s),
        digits_value(s.push(b)) == digits_value(s) * 10 + (b - 48) as nat,
{
    assert(s.push(b).drop_last() =~= s);
}

/// The total page count of a paged feed, from the value of the header that
/// carries it (absent when the response had none).
pub fn total_pages_from_header(header: Option<&[u8]>) -> (r: usize)
    ensures
        r as nat == announced_pages(
            match header {
                Some(h) => Some(h@),
                None => None,
            },
        ),
{
    let h = match header {
        None => return 1,
        Some(h) => h,
    };
    let ghost hs = h@;
    let mut i: usize = 0;
    if h.len() > 0 && h[0] == 43u8 {
        i = 1;
    }
    let start = i;
    proof {
        assert(unsigned_body(hs) =~= hs.subrange(start as int, hs.len() as int));
    }
    if i >= h.len() {
        return 1;
    }
    let mut value: usize = 0;
    let mut overflow = false;
    while i < h.len()
        invariant
            start <= i <= h@.len(),
            start < h@.len(),
            h@ == hs,
            header == Some(h),
            unsigned_body(hs) =~= hs.subrange(start as int, hs.len() as int),
            forall|k: int| start <= k < i ==> is_digit(#[trigger] hs[k]),
            !overflow ==> value as nat == digits_value(hs.subrange(start as int, i as int)),
            overflow ==> digits_value(hs.subrange(start as int, i as int)) > usize::MAX,
        decreases h@.len() - i,
    {
        let b = h[i];
        if b < 48u8 || b > 57u8 {
            proof {
                let d = unsigned_body(hs);
                assert(d[i - start] == b);
                assert(!is_usize_text(hs));
            }
            return 1;
        }
        let digit = (b - 48u8) as usize;
        proof {
            let pre = hs.subrange(start as int, i as int);
            assert(hs.subrange(start as int, i + 1) =~= pre.push(b));
            lemma_digits_value_grows(pre, b);
        }
        if !overflow && value <= (usize::MAX - digit) / 10 {
            value = value * 10 + digit;
        } else {
            overflow = true;
        }
        i = i + 1;
    }
    proof {
        assert(hs.subrange(start as int, hs.len() as int) =~= unsigned_body(hs));
    }
    if overflow {
        1
    } else {
        value
    }
}

} // verus!
