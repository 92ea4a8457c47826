//! Minting of fresh identifiers from a counter.
//!
//! The in-memory store assigns each new row an identifier derived from a
//! monotone counter: the counter's 16 hexadecimal digits stand in the last
//! 16 digit positions of a canonical hyphenated UUID string, and the first
//! 16 digit positions are zero. Distinct counters yield identifiers that
//! name distinct UUIDs, which is what makes minted identifiers fresh.

use crate::uuid_text::add_hyphens;
use crate::uuid_text::canon_all;
use crate::uuid_text::canon_digit;
use crate::uuid_text::hex_digit_char;
use crate::uuid_text::is_canon_digits;
use crate::uuid_text::is_hyphenated_uuid;
use crate::uuid_text::is_lower_hex;
use crate::uuid_text::push_hex_digit;
use crate::uuid_text::same_uuid;
use crate::uuid_text::strip_hyphens;
use crate::uuid_text::uuid_digits;
use crate::uuid_text::uuid_wf;
use vstd::prelude::*;
use vstd::string::StrSliceExecFns;
use vstd::string::StringExecFns;

verus! {

/// The nibble of `n` at position `k`, counting from the least significant.
pub open spec fn nib(n: u64, k: u64) -> u64 {
    (n >> (4 * k)) & 0xf
}

/// The 16 hexadecimal digits of `n`, most significant first.
pub open spec fn hex16(n: u64) -> Seq<char> {
    Seq::new(16, |i: int| hex_digit_char(nib(n, (15 - i) as u64)))
}

/// Sixteen zero digits.
pub open spec fn zeros16() -> Seq<char> {
    Seq::new(16, |i: int| '0')
}

/// The digit string of the identifier minted from `n`: sixteen zeros
/// followed by the sixteen digits of `n`.
pub open spec fn counter_digits(n: u64) -> Seq<char> {
    zeros16() + hex16(n)
}

/// The canonical UUID string of the identifier minted from `n`.
pub open spec fn uuid_of(n: u64) -> Seq<char> {
    add_hyphens(counter_digits(n))
}

pub proof fn lemma_nib_bound(n: u64, k: u64)
    ensures
        nib(n, k) < 16,
{
    assert((n >> (4 * k)) & 0xf < 16) by (bit_vector);
}

/// A lowercase digit stands for itself in canonical form.
pub proof fn lemma_canon_digit_identity(c: char)
    requires
        is_lower_hex(c),
    ensures
        canon_digit(c) == c,
{
}

/// Canonical digit strings are fixed points of canonicalisation.
pub proof fn lemma_canon_all_identity(d: Seq<char>)
    requires
        is_canon_digits(d),
    ensures
        canon_all(d) == d,
{
    assert forall|j: int| 0 <= j < 32 implies canon_all(d)[j] == d[j] by {
        lemma_canon_digit_identity(d[j]);
    }
    assert(canon_all(d) =~= d);
}

/// The minted digit string is a canonical digit string.
pub proof fn lemma_counter_digits_canon(n: u64)
    ensures
        is_canon_digits(counter_digits(n)),
{
    assert forall|j: int| 0 <= j < 32 implies is_lower_hex(
        #[trigger] counter_digits(n)[j],
    ) by {
        if j < 16 {
            assert(counter_digits(n)[j] == '0');
        } else {
            assert(counter_digits(n)[j] == hex_digit_char(nib(n, (31 - j) as u64)));
            lemma_nib_bound(n, (31 - j) as u64);
        }
    }
}

/// Hyphenating a canonical digit string gives a well-formed UUID string.
pub proof fn lemma_add_hyphens_wf(d: Seq<char>)
    requires
        is_canon_digits(d),
    ensures
        is_hyphenated_uuid(add_hyphens(d)),
        uuid_wf(add_hyphens(d)),
{
    let t = add_hyphens(d);
    assert(t.len() == 36);
    assert forall|j: int| 0 <= j < 36 implies crate::uuid_text::hyphenated_pos_ok(t, j) by {
        if j < 8 {
            assert(t[j] == d[j]);
        } else if j == 8 {
            assert(t[j] == '-');
        } else if j < 13 {
            assert(t[j] == d[j - 1]);
        } else if j == 13 {
            assert(t[j] == '-');
        } else if j < 18 {
            assert(t[j] == d[j - 2]);
        } else if j == 18 {
            assert(t[j] == '-');
        } else if j < 23 {
            assert(t[j] == d[j - 3]);
        } else if j == 23 {
            assert(t[j] == '-');
        } else {
            assert(t[j] == d[j - 4]);
        }
    }
}

/// Hyphenating and reading back the digits is the identity on canonical
/// digit strings.
pub proof fn lemma_add_hyphens_digits(d: Seq<char>)
    requires
        is_canon_digits(d),
    ensures
        uuid_digits(add_hyphens(d)) == d,
{
    let t = add_hyphens(d);
    assert(t.len() == 36);
    assert forall|j: int| 0 <= j < 32 implies strip_hyphens(t)[j] == d[j] by {
        if j < 8 {
            assert(strip_hyphens(t)[j] == t[j]);
            assert(t[j] == d[j]);
        } else if j < 12 {
            assert(strip_hyphens(t)[j] == t[j + 1]);
            assert(t[j + 1] == d[j]);
        } else if j < 16 {
            assert(strip_hyphens(t)[j] == t[j + 2]);
            assert(t[j + 2] == d[j]);
        } else if j < 20 {
            assert(strip_hyphens(t)[j] == t[j + 3]);
            assert(t[j + 3] == d[j]);
        } else {
            assert(strip_hyphens(t)[j] == t[j + 4]);
            assert(t[j + 4] == d[j]);
        }
    }
    assert(strip_hyphens(t) =~= d);
    lemma_canon_all_identity(d);
}

pub proof fn lemma_hex_digit_char_injective(x: u64, y: u64)
    requires
        x < 16,
        y < 16,
        hex_digit_char(x) == hex_digit_char(y),
    ensures
        x == y,
{
}

pub proof fn lemma_hex16_injective(a: u64, b: u64)
    requires
        hex16(a) == hex16(b),
    ensures
        a == b,
{
    assert forall|k: u64| k < 16 implies nib(a, k) == nib(b, k) by {
        let i = 15 - k as int;
        assert(hex16(a)[i] == hex16(b)[i]);
        assert((15 - i) as u64 == k);
        assert(hex16(a)[i] == hex_digit_char(nib(a, k)));
        assert(hex16(b)[i] == hex_digit_char(nib(b, k)));
        lemma_nib_bound(a, k);
        lemma_nib_bound(b, k);
        lemma_hex_digit_char_injective(nib(a, k), nib(b, k));
    }
    assert(nib(a, 0) == nib(b, 0));
    assert(nib(a, 1) == nib(b, 1));
    assert(nib(a, 2) == nib(b, 2));
    assert(nib(a, 3) == nib(b, 3));
    assert(nib(a, 4) == nib(b, 4));
    assert(nib(a, 5) == nib(b, 5));
    assert(nib(a, 6) == nib(b, 6));
    assert(nib(a, 7) == nib(b, 7));
    assert(nib(a, 8) == nib(b, 8));
    assert(nib(a, 9) == nib(b, 9));
    assert(nib(a, 10) == nib(b, 10));
    assert(nib(a, 11) == nib(b, 11));
    assert(nib(a, 12) == nib(b, 12));
    assert(nib(a, 13) == nib(b, 13));
    assert(nib(a, 14) == nib(b, 14));
    assert(nib(a, 15) == nib(b, 15));
    assert(a == b) by (bit_vector)
        requires
            (a >> 0) & 0xf == (b >> 0) & 0xf,
            (a >> 4) & 0xf == (b >> 4) & 0xf,
            (a >> 8) & 0xf == (b >> 8) & 0xf,
            (a >> 12) & 0xf == (b >> 12) & 0xf,
            (a >> 16) & 0xf == (b >> 16) & 0xf,
            (a >> 20) & 0xf == (b >> 20) & 0xf,
            (a >> 24) & 0xf == (b >> 24) & 0xf,
            (a >> 28) & 0xf == (b >> 28) & 0xf,
            (a >> 32) & 0xf == (b >> 32) & 0xf,
            (a >> 36) & 0xf == (b >> 36) & 0xf,
            (a >> 40) & 0xf == (b >> 40) & 0xf,
            (a >> 44) & 0xf == (b >> 44) & 0xf,
            (a >> 48) & 0xf == (b >> 48) & 0xf,
            (a >> 52) & 0xf == (b >> 52) & 0xf,
            (a >> 56) & 0xf == (b >> 56) & 0xf,
            (a >> 60) & 0xf == (b >> 60) & 0xf,
    ;
}

/// The digits of a minted identifier, read back from its UUID string.
pub proof fn lemma_uuid_of_digits(n: u64)
    ensures
        uuid_digits(uuid_of(n)) == counter_digits(n),
        uuid_wf(uuid_of(n)),
{
    lemma_counter_digits_canon(n);
    lemma_add_hyphens_wf(counter_digits(n));
    lemma_add_hyphens_digits(counter_digits(n));
}

/// Distinct counters mint identifiers that name distinct UUIDs.
pub proof fn lemma_uuid_of_distinct(a: u64, b: u64)
    requires
        a != b,
    ensures
        !same_uuid(uuid_of(a), uuid_of(b)),
{
    lemma_uuid_of_digits(a);
    lemma_uuid_of_digits(b);
    if same_uuid(uuid_of(a), uuid_of(b)) {
        assert(counter_digits(a) == counter_digits(b));
        assert forall|i: int| 0 <= i < 16 implies hex16(a)[i] == hex16(b)[i] by {
            assert(counter_digits(a)[i + 16] == counter_digits(b)[i + 16]);
            assert(counter_digits(a)[i + 16] == hex16(a)[i]);
            assert(counter_digits(b)[i + 16] == hex16(b)[i]);
        }
        assert(hex16(a) =~= hex16(b));
        lemma_hex16_injective(a, b);
    }
}

/// An identifier minted from some counter value below `bound`.
pub open spec fn minted_below(u: Seq<char>, bound: u64) -> bool {
    exists|k: u64| k < bound && u == uuid_of(k)
}

/// A minted identifier is a well-formed UUID string.
pub proof fn lemma_minted_wf(u: Seq<char>, bound: u64)
    requires
        minted_below(u, bound),
    ensures
        uuid_wf(u),
{
    let k0 = choose|k: u64| k < bound && u == uuid_of(k);
    lemma_uuid_of_digits(k0);
}

/// A bound on the mint counter can only grow.
pub proof fn lemma_minted_widen(u: Seq<char>, b1: u64, b2: u64)
    requires
        minted_below(u, b1),
        b1 <= b2,
    ensures
        minted_below(u, b2),
{
    let k0 = choose|k: u64| k < b1 && u == uuid_of(k);
    assert(k0 < b2 && u == uuid_of(k0));
}

/// The next minted identifier names a UUID that no earlier one names.
pub proof fn lemma_minted_fresh(u: Seq<char>, bound: u64)
    requires
        minted_below(u, bound),
    ensures
        !same_uuid(u, uuid_of(bound)),
{
    let k0 = choose|k: u64| k < bound && u == uuid_of(k);
    lemma_uuid_of_distinct(k0, bound);
}

/// Minting from `n` stays below the bumped counter.
pub proof fn lemma_minted_new(n: u64)
    requires
        n < u64::MAX,
    ensures
        minted_below(uuid_of(n), (n + 1) as u64),
{
    assert(n < (n + 1) as u64 && uuid_of(n) == uuid_of(n));
}

/// Renders the sixteen digits of `n`, most significant first.
pub fn render_hex16(n: u64) -> (s: String)
    ensures
        s@ == hex16(n),
{
    let mut s = String::new();
    let mut j: usize = 0;
    while j < 16
        invariant
            j <= 16,
            s@ == hex16(n).take(j as int),
        decreases 16 - j,
    {
        let k: u64 = 15 - (j as u64);
        proof {
            assert(4 * k < 64) by (bit_vector)
                requires
                    k < 16,
            ;
        }
        let sh: u64 = 4 * k;
        let v: u64 = (n >> sh) & 0xf;
        proof {
            lemma_nib_bound(n, k);
            assert(v == nib(n, k));
        }
        push_hex_digit(&mut s, v);
        proof {
            assert(hex16(n)[j as int] == hex_digit_char(nib(n, k)));
            assert(s@ =~= hex16(n).take(j as int + 1));
        }
        j += 1;
    }
    proof {
        assert(s@ =~= hex16(n));
    }
    s
}

/// Renders the digit string of the identifier minted from `n`.
pub fn render_counter_digits(n: u64) -> (s: String)
    ensures
        s@ == counter_digits(n),
{
    let mut s = String::new();
    let mut j: usize = 0;
    while j < 16
        invariant
            j <= 16,
            s@ == zeros16().take(j as int),
        decreases 16 - j,
    {
        push_hex_digit(&mut s, 0);
        proof {
            assert(s@ =~= zeros16().take(j as int + 1));
        }
        j += 1;
    }
    proof {
        assert(s@ =~= zeros16());
    }
    let tail = render_hex16(n);
    s.append(tail.as_str());
    proof {
        assert(s@ =~= counter_digits(n));
    }
    s
}

/// Renders a canonical digit string in the hyphenated form.
pub fn hyphenate(d: &str) -> (out: String)
    requires
        d@.len() == 32,
    ensures
        out@ == add_hyphens(d@),
{
    let mut out = String::new();
    out.append(d.substring_char(0, 8));
    out.append("-");
    out.append(d.substring_char(8, 12));
    out.append("-");
    out.append(d.substring_char(12, 16));
    out.append("-");
    out.append(d.substring_char(16, 20));
    out.append("-");
    out.append(d.substring_char(20, 32));
    proof {
        reveal_strlit("-");
        assert("-"@ =~= seq!['-']);
        assert(out@ =~= add_hyphens(d@));
    }
    out
}

/// Renders the canonical UUID string of the identifier minted from `n`.
pub fn render_uuid(n: u64) -> (s: String)
    ensures
        s@ == uuid_of(n),
{
    let d = render_counter_digits(n);
    proof {
        assert(d@.len() == 32);
    }
    hyphenate(d.as_str())
}

} // verus!
