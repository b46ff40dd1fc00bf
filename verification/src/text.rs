//! Byte-level text helpers shared by the wire and FIX codecs: decimal
//! digits, the numeric grammar of prices and volumes, and the grammar of
//! instrument symbols.
use vstd::prelude::*;

verus! {

/// ASCII space, the field separator of the broadcast wire protocol.
pub const SPACE: u8 = 32;

/// ASCII full stop, the decimal point of price texts.
pub const DOT: u8 = 46;

/// ASCII hyphen-minus, the sign of a negative number text.
pub const MINUS: u8 = 45;

/// ASCII carriage return.
pub const CR: u8 = 13;

/// ASCII line feed.
pub const LF: u8 = 10;

/// The SOH byte that delimits FIX fields.
pub const SOH: u8 = 1;

pub open spec fn is_digit(b: u8) -> bool {
    48 <= b <= 57
}

/// The number denoted by a sequence of decimal digit bytes.
pub open spec fn dec_value(s: Seq<u8>) -> nat
    decreases s.len(),
{
    if s.len() == 0 {
        0
    } else {
        dec_value(s.drop_last()) * 10 + (if is_digit(s.last()) {
            (s.last() - 48) as nat
        } else {
            0
        })
    }
}

pub open spec fn all_digits(s: Seq<u8>) -> bool {
    forall|i: int| 0 <= i < s.len() ==> is_digit(#[trigger] s[i])
}

pub open spec fn pow10(n: nat) -> nat
    decreases n,
{
    if n == 0 {
        1
    } else {
        10 * pow10((n - 1) as nat)
    }
}

pub proof fn lemma_dec_value_bound(s: Seq<u8>)
    ensures
        dec_value(s) < pow10(s.len()),
    decreases s.len(),
{
    if s.len() > 0 {
        lemma_dec_value_bound(s.drop_last());
    }
}

pub proof fn lemma_pow10_18()
    ensures
        pow10(18) == 0x0DE0_B6B3_A764_0000,
{
    reveal_with_fuel(pow10, 19);
}

pub proof fn lemma_pow10_mono(a: nat, b: nat)
    requires
        a <= b,
    ensures
        pow10(a) <= pow10(b),
    decreases b,
{
    if a < b {
        lemma_pow10_mono(a, (b - 1) as nat);
    }
}

/// Parses a run of decimal digit bytes. Returns `None` on an empty slice,
/// on any non-digit byte, or on more than 18 digits (the widest run whose
/// value always fits in a `u64`).
pub fn parse_number(src: &[u8]) -> (r: Option<u64>)
    ensures
        r is Some <==> (1 <= src@.len() <= 18 && all_digits(src@)),
        r is Some ==> r->Some_0 == dec_value(src@),
{
    if src.len() == 0 || src.len() > 18 {
        return None;
    }
    let ghost s = src@;
    let mut acc: u64 = 0;
    let mut i: usize = 0;
    while i < src.len()
        invariant
            0 <= i <= s.len(),
            1 <= s.len() <= 18,
            s == src@,
            all_digits(s.subrange(0, i as int)),
            acc == dec_value(s.subrange(0, i as int)),
            acc < pow10(i as nat),
        decreases src.len() - i,
    {
        let b = src[i];
        if b < 48 || b > 57 {
            assert(!is_digit(s[i as int]));
            return None;
        }
        proof {
            lemma_pow10_mono(i as nat, 17);
            lemma_pow10_18();
            assert(pow10(18) == 10 * pow10(17));
            assert(s.subrange(0, i + 1).drop_last() =~= s.subrange(0, i as int));
            assert(s.subrange(0, i + 1).last() == s[i as int]);
        }
        acc = acc * 10 + ((b - 48) as u64);
        i = i + 1;
    }
    proof {
        assert(s.subrange(0, s.len() as int) =~= s);
    }
    Some(acc)
}

/// The canonical (no leading zero beyond a lone `0`) decimal rendering of `n`.
pub open spec fn spec_dec(n: nat) -> Seq<u8>
    decreases n,
{
    if n < 10 {
        seq![(48 + n) as u8]
    } else {
        spec_dec(n / 10).push((48 + n % 10) as u8)
    }
}

/// Renders `n` in decimal.
pub fn u64_to_dec(n: u64) -> (r: Vec<u8>)
    ensures
        r@ == spec_dec(n as nat),
{
    let mut tmp: Vec<u8> = Vec::new();
    let mut m: u64 = n;
    while m >= 10
        invariant
            spec_dec(n as nat) == spec_dec(m as nat) + tmp@.reverse(),
        decreases m,
    {
        let d: u8 = (m % 10) as u8;
        proof {
            assert((tmp@.push((48 + d) as u8)).reverse() =~= seq![(48 + d) as u8]
                + tmp@.reverse());
        }
        tmp.push(48 + d);
        m = m / 10;
    }
    let mut r: Vec<u8> = Vec::new();
    r.push(48 + (m as u8));
    proof {
        assert(r@ =~= spec_dec(m as nat));
    }
    while tmp.len() > 0
        invariant
            spec_dec(n as nat) == r@ + tmp@.reverse(),
        decreases tmp.len(),
    {
        proof {
            assert(tmp@.reverse() =~= seq![tmp@.last()] + tmp@.drop_last().reverse());
        }
        let x = tmp.pop().unwrap();
        r.push(x);
    }
    proof {
        assert(spec_dec(n as nat) =~= r@);
    }
    r
}

/// Two-digit zero-padded rendering, for calendar fields.
pub open spec fn pad2(n: nat) -> Seq<u8> {
    seq![(48 + (n / 10) % 10) as u8, (48 + n % 10) as u8]
}

/// Three-digit zero-padded rendering, for milliseconds and FIX checksums.
pub open spec fn pad3(n: nat) -> Seq<u8> {
    seq![(48 + (n / 100) % 10) as u8, (48 + (n / 10) % 10) as u8, (48 + n % 10) as u8]
}

/// Four-digit zero-padded rendering, for years.
pub open spec fn pad4(n: nat) -> Seq<u8> {
    seq![
        (48 + (n / 1000) % 10) as u8,
        (48 + (n / 100) % 10) as u8,
        (48 + (n / 10) % 10) as u8,
        (48 + n % 10) as u8,
    ]
}

pub fn u32_pad2(n: u32) -> (r: Vec<u8>)
    requires
        n < 100,
    ensures
        r@ == pad2(n as nat),
{
    let mut r: Vec<u8> = Vec::new();
    r.push(48 + ((n / 10) % 10) as u8);
    r.push(48 + (n % 10) as u8);
    proof {
        assert(r@ =~= pad2(n as nat));
    }
    r
}

pub fn u32_pad3(n: u32) -> (r: Vec<u8>)
    requires
        n < 1000,
    ensures
        r@ == pad3(n as nat),
{
    let mut r: Vec<u8> = Vec::new();
    r.push(48 + ((n / 100) % 10) as u8);
    r.push(48 + ((n / 10) % 10) as u8);
    r.push(48 + (n % 10) as u8);
    proof {
        assert(r@ =~= pad3(n as nat));
    }
    r
}

pub fn u32_pad4(n: u32) -> (r: Vec<u8>)
    requires
        n < 10000,
    ensures
        r@ == pad4(n as nat),
{
    let mut r: Vec<u8> = Vec::new();
    r.push(48 + ((n / 1000) % 10) as u8);
    r.push(48 + ((n / 100) % 10) as u8);
    r.push(48 + ((n / 10) % 10) as u8);
    r.push(48 + (n % 10) as u8);
    proof {
        assert(r@ =~= pad4(n as nat));
    }
    r
}

/// Reads back a two-digit zero-padded field.
pub proof fn lemma_pad2_value(n: nat)
    requires
        n < 100,
    ensures
        all_digits(pad2(n)),
        dec_value(pad2(n)) == n,
{
    let s = pad2(n);
    assert(s.drop_last() =~= seq![(48 + (n / 10) % 10) as u8]);
    assert(s.drop_last().drop_last() =~= Seq::<u8>::empty());
    assert(dec_value(s.drop_last().drop_last()) == 0);
    assert(dec_value(s.drop_last()) == (n / 10) % 10);
    assert(dec_value(s) == ((n / 10) % 10) * 10 + n % 10);
    assert(((n / 10) % 10) * 10 + n % 10 == n) by (nonlinear_arith)
        requires n < 100;
}

/// Reads back a three-digit zero-padded field.
pub proof fn lemma_pad3_value(n: nat)
    requires
        n < 1000,
    ensures
        all_digits(pad3(n)),
        dec_value(pad3(n)) == n,
{
    let s = pad3(n);
    assert(s.drop_last() =~= pad2(n / 10));
    lemma_pad2_value(n / 10);
    assert(dec_value(s) == (n / 10) * 10 + n % 10) by {
        assert(dec_value(s) == dec_value(s.drop_last()) * 10 + (n % 10));
    }
    assert((n / 10) * 10 + n % 10 == n) by (nonlinear_arith);
}

/// Reads back a four-digit zero-padded field.
pub proof fn lemma_pad4_value(n: nat)
    requires
        n < 10000,
    ensures
        all_digits(pad4(n)),
        dec_value(pad4(n)) == n,
{
    let s = pad4(n);
    assert(s.drop_last() =~= pad3(n / 10)) by {
        assert((n / 10) / 100 == n / 1000) by (nonlinear_arith);
        assert((n / 10) / 10 == n / 100) by (nonlinear_arith);
    }
    lemma_pad3_value(n / 10);
    assert(dec_value(s) == dec_value(s.drop_last()) * 10 + (n % 10));
    assert((n / 10) * 10 + n % 10 == n) by (nonlinear_arith);
}

/// Byte-for-byte equality of two slices.
pub fn bytes_eq(a: &[u8], b: &[u8]) -> (r: bool)
    ensures
        r <==> a@ == b@,
{
    if a.len() != b.len() {
        return false;
    }
    let mut i: usize = 0;
    while i < a.len()
        invariant
            a@.len() == b@.len(),
            0 <= i <= a@.len(),
            forall|j: int| 0 <= j < i ==> a@[j] == b@[j],
        decreases a.len() - i,
    {
        if a[i] != b[i] {
            return false;
        }
        i = i + 1;
    }
    proof {
        assert(a@ =~= b@);
    }
    true
}

/// The grammar of price and volume texts on the wire: an optional leading
/// minus, then decimal digits with at most one interior decimal point.
pub open spec fn is_num_text(s: Seq<u8>) -> bool {
    &&& s.len() >= 1
    &&& (is_digit(s[0]) || s[0] == MINUS)
    &&& (s[0] == MINUS ==> s.len() >= 2 && is_digit(s[1]))
    &&& forall|i: int| 1 <= i < s.len() ==> (is_digit(#[trigger] s[i]) || s[i] == DOT)
    &&& count_dots(s) <= 1
    &&& s.last() != DOT
}

pub open spec fn count_dots(s: Seq<u8>) -> nat
    decreases s.len(),
{
    if s.len() == 0 {
        0
    } else {
        count_dots(s.drop_last()) + (if s.last() == DOT {
            1nat
        } else {
            0nat
        })
    }
}

proof fn lemma_count_dots_zero(s: Seq<u8>)
    requires
        forall|i: int| 0 <= i < s.len() ==> #[trigger] s[i] != DOT,
    ensures
        count_dots(s) == 0,
    decreases s.len(),
{
    if s.len() > 0 {
        lemma_count_dots_zero(s.drop_last());
    }
}

/// Checks the numeric grammar.
pub fn check_num_text(s: &[u8]) -> (r: bool)
    ensures
        r <==> is_num_text(s@),
{
    if s.len() == 0 {
        return false;
    }
    let first = s[0];
    if !(48 <= first && first <= 57) && first != MINUS {
        return false;
    }
    if first == MINUS && (s.len() < 2 || !(48 <= s[1] && s[1] <= 57)) {
        return false;
    }
    let mut dots: usize = 0;
    let mut i: usize = 0;
    while i < s.len()
        invariant
            0 <= i <= s@.len(),
            s@.len() >= 1,
            forall|j: int| 1 <= j < i ==> (is_digit(#[trigger] s@[j]) || s@[j] == DOT),
            dots == count_dots(s@.subrange(0, i as int)),
            dots <= i,
        decreases s.len() - i,
    {
        let b = s[i];
        if i > 0 && !(48 <= b && b <= 57) && b != DOT {
            return false;
        }
        proof {
            assert(s@.subrange(0, i + 1).drop_last() =~= s@.subrange(0, i as int));
            assert(s@.subrange(0, i + 1).last() == s@[i as int]);
        }
        if b == DOT {
            dots = dots + 1;
        }
        i = i + 1;
    }
    proof {
        assert(s@.subrange(0, s@.len() as int) =~= s@);
    }
    dots <= 1 && s[s.len() - 1] != DOT
}

/// The grammar of instrument and exchange identifiers: non-empty, and free
/// of the bytes that would break wire framing (space, CR, LF) or FIX
/// framing (SOH, the `=` of a FIX field).
pub open spec fn is_symbol_text(s: Seq<u8>) -> bool {
    &&& s.len() >= 1
    &&& forall|i: int|
        0 <= i < s.len() ==> (#[trigger] s[i] != SPACE && s[i] != CR && s[i] != LF && s[i] != SOH
            && s[i] != 61)
}

/// Checks the symbol grammar.
pub fn check_symbol_text(s: &[u8]) -> (r: bool)
    ensures
        r <==> is_symbol_text(s@),
{
    if s.len() == 0 {
        return false;
    }
    let mut i: usize = 0;
    while i < s.len()
        invariant
            0 <= i <= s@.len(),
            forall|j: int|
                0 <= j < i ==> (#[trigger] s@[j] != SPACE && s@[j] != CR && s@[j] != LF && s@[j]
                    != SOH && s@[j] != 61),
        decreases s.len() - i,
    {
        let b = s[i];
        if b == SPACE || b == CR || b == LF || b == SOH || b == 61 {
            return false;
        }
        i = i + 1;
    }
    true
}

} // verus!
