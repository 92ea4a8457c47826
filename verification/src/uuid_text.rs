//! The UUID identifier grammar and its canonical form.
//!
//! Identifiers are UUID strings. The accepted grammar covers the textual
//! forms of a UUID: the plain 32-digit form, the canonical hyphenated form,
//! the braced form, and the URN form. A well-formed identifier reduces to 32
//! lowercase hexadecimal digits, its canonical digit string; two identifiers
//! name the same UUID exactly when their digit strings agree.

use vstd::prelude::*;
use vstd::string::StrSliceExecFns;
use vstd::string::StringExecFns;

verus! {

/// A hexadecimal digit of either case.
pub open spec fn is_hex_digit(c: char) -> bool {
    ('0' as u32 <= c as u32 && c as u32 <= '9' as u32) || ('a' as u32 <= c as u32 && c as u32
        <= 'f' as u32) || ('A' as u32 <= c as u32 && c as u32 <= 'F' as u32)
}

/// A lowercase hexadecimal digit: what canonical digit strings are made of.
pub open spec fn is_lower_hex(c: char) -> bool {
    ('0' as u32 <= c as u32 && c as u32 <= '9' as u32) || ('a' as u32 <= c as u32 && c as u32
        <= 'f' as u32)
}

/// What stands at position `j` of a 36-character hyphenated body: a hyphen
/// at the four separator positions, a hexadecimal digit everywhere else.
pub open spec fn hyphenated_pos_ok(t: Seq<char>, j: int) -> bool {
    if j == 8 || j == 13 || j == 18 || j == 23 {
        t[j] == '-'
    } else {
        is_hex_digit(t[j])
    }
}

/// The canonical hyphenated form: five digit groups of 8, 4, 4, 4 and 12,
/// separated by hyphens.
pub open spec fn is_hyphenated_uuid(t: Seq<char>) -> bool {
    t.len() == 36 && (forall|j: int| 0 <= j < 36 ==> hyphenated_pos_ok(t, j))
}

/// The plain form: 32 hexadecimal digits without separators.
pub open spec fn is_simple_uuid(t: Seq<char>) -> bool {
    t.len() == 32 && (forall|j: int| 0 <= j < 32 ==> is_hex_digit(#[trigger] t[j]))
}

/// The braced form: a hyphenated body wrapped in curly braces.
pub open spec fn is_braced_uuid(t: Seq<char>) -> bool {
    t.len() == 38 && t[0] == '{' && t[37] == '}' && is_hyphenated_uuid(t.subrange(1, 37))
}

/// The nine-character URN prefix, letter case ignored.
pub open spec fn is_urn_prefix(t: Seq<char>) -> bool {
    (t[0] == 'u' || t[0] == 'U') && (t[1] == 'r' || t[1] == 'R') && (t[2] == 'n' || t[2] == 'N')
        && t[3] == ':' && (t[4] == 'u' || t[4] == 'U') && (t[5] == 'u' || t[5] == 'U') && (t[6]
        == 'i' || t[6] == 'I') && (t[7] == 'd' || t[7] == 'D') && t[8] == ':'
}

/// The URN form: the prefix followed by a hyphenated body.
pub open spec fn is_urn_uuid(t: Seq<char>) -> bool {
    t.len() == 45 && is_urn_prefix(t) && is_hyphenated_uuid(t.subrange(9, 45))
}

/// A well-formed UUID string: any of the four accepted textual forms.
pub open spec fn uuid_wf(t: Seq<char>) -> bool {
    is_simple_uuid(t) || is_hyphenated_uuid(t) || is_braced_uuid(t) || is_urn_uuid(t)
}

/// The numeric value of a hexadecimal digit; zero on any other character.
pub open spec fn hex_val(c: char) -> u64 {
    if c == '0' {
        0
    } else if c == '1' {
        1
    } else if c == '2' {
        2
    } else if c == '3' {
        3
    } else if c == '4' {
        4
    } else if c == '5' {
        5
    } else if c == '6' {
        6
    } else if c == '7' {
        7
    } else if c == '8' {
        8
    } else if c == '9' {
        9
    } else if c == 'a' || c == 'A' {
        10
    } else if c == 'b' || c == 'B' {
        11
    } else if c == 'c' || c == 'C' {
        12
    } else if c == 'd' || c == 'D' {
        13
    } else if c == 'e' || c == 'E' {
        14
    } else if c == 'f' || c == 'F' {
        15
    } else {
        0
    }
}

/// The lowercase digit character of a value below 16.
pub open spec fn hex_digit_char(v: u64) -> char {
    if v == 0 {
        '0'
    } else if v == 1 {
        '1'
    } else if v == 2 {
        '2'
    } else if v == 3 {
        '3'
    } else if v == 4 {
        '4'
    } else if v == 5 {
        '5'
    } else if v == 6 {
        '6'
    } else if v == 7 {
        '7'
    } else if v == 8 {
        '8'
    } else if v == 9 {
        '9'
    } else if v == 10 {
        'a'
    } else if v == 11 {
        'b'
    } else if v == 12 {
        'c'
    } else if v == 13 {
        'd'
    } else if v == 14 {
        'e'
    } else if v == 15 {
        'f'
    } else {
        '0'
    }
}

/// A digit folded to its canonical lowercase form.
pub open spec fn canon_digit(c: char) -> char {
    hex_digit_char(hex_val(c))
}

/// The 32 digit positions of a hyphenated body, separators dropped.
pub open spec fn strip_hyphens(t: Seq<char>) -> Seq<char> {
    t.subrange(0, 8) + t.subrange(9, 13) + t.subrange(14, 18) + t.subrange(19, 23) + t.subrange(
        24,
        36,
    )
}

/// Every digit folded to its canonical form.
pub open spec fn canon_all(s: Seq<char>) -> Seq<char> {
    s.map_values(|c: char| canon_digit(c))
}

/// The canonical digit string of a UUID string: its 32 hexadecimal digits,
/// lowercased. Empty on a string of a length no form has.
pub open spec fn uuid_digits(t: Seq<char>) -> Seq<char> {
    if t.len() == 32 {
        canon_all(t)
    } else if t.len() == 36 {
        canon_all(strip_hyphens(t))
    } else if t.len() == 38 {
        canon_all(strip_hyphens(t.subrange(1, 37)))
    } else if t.len() == 45 {
        canon_all(strip_hyphens(t.subrange(9, 45)))
    } else {
        Seq::empty()
    }
}

/// Two identifier strings that name the same UUID.
pub open spec fn same_uuid(a: Seq<char>, b: Seq<char>) -> bool {
    uuid_digits(a) == uuid_digits(b)
}

/// A canonical digit string: 32 lowercase hexadecimal digits.
pub open spec fn is_canon_digits(d: Seq<char>) -> bool {
    d.len() == 32 && (forall|j: int| 0 <= j < 32 ==> is_lower_hex(#[trigger] d[j]))
}

/// The canonical hyphenated rendering of a digit string.
pub open spec fn add_hyphens(d: Seq<char>) -> Seq<char> {
    d.subrange(0, 8) + seq!['-'] + d.subrange(8, 12) + seq!['-'] + d.subrange(12, 16) + seq!['-']
        + d.subrange(16, 20) + seq!['-'] + d.subrange(20, 32)
}

/// Tells a hexadecimal digit of either case.
pub fn hex_digit_check(c: char) -> (b: bool)
    ensures
        b == is_hex_digit(c),
{
    let v = c as u32;
    ('0' as u32 <= v && v <= '9' as u32) || ('a' as u32 <= v && v <= 'f' as u32) || ('A' as u32
        <= v && v <= 'F' as u32)
}

/// The numeric value of a hexadecimal digit.
pub fn hex_val_of(c: char) -> (v: u64)
    ensures
        v == hex_val(c),
        v < 16,
{
    if c == '0' {
        0
    } else if c == '1' {
        1
    } else if c == '2' {
        2
    } else if c == '3' {
        3
    } else if c == '4' {
        4
    } else if c == '5' {
        5
    } else if c == '6' {
        6
    } else if c == '7' {
        7
    } else if c == '8' {
        8
    } else if c == '9' {
        9
    } else if c == 'a' || c == 'A' {
        10
    } else if c == 'b' || c == 'B' {
        11
    } else if c == 'c' || c == 'C' {
        12
    } else if c == 'd' || c == 'D' {
        13
    } else if c == 'e' || c == 'E' {
        14
    } else if c == 'f' || c == 'F' {
        15
    } else {
        0
    }
}

/// Appends the canonical digit character of a value below 16.
pub fn push_hex_digit(out: &mut String, v: u64)
    requires
        v < 16,
    ensures
        final(out)@ == old(out)@ + seq![hex_digit_char(v)],
{
    if v == 0 {
        out.append("0");
        proof {
            reveal_strlit("0");
            assert(out@ =~= old(out)@ + seq![hex_digit_char(v)]);
        }
    } else if v == 1 {
        out.append("1");
        proof {
            reveal_strlit("1");
            assert(out@ =~= old(out)@ + seq![hex_digit_char(v)]);
        }
    } else if v == 2 {
        out.append("2");
        proof {
            reveal_strlit("2");
            assert(out@ =~= old(out)@ + seq![hex_digit_char(v)]);
        }
    } else if v == 3 {
        out.append("3");
        proof {
            reveal_strlit("3");
            assert(out@ =~= old(out)@ + seq![hex_digit_char(v)]);
        }
    } else if v == 4 {
        out.append("4");
        proof {
            reveal_strlit("4");
            assert(out@ =~= old(out)@ + seq![hex_digit_char(v)]);
        }
    } else if v == 5 {
        out.append("5");
        proof {
            reveal_strlit("5");
            assert(out@ =~= old(out)@ + seq![hex_digit_char(v)]);
        }
    } else if v == 6 {
        out.append("6");
        proof {
            reveal_strlit("6");
            assert(out@ =~= old(out)@ + seq![hex_digit_char(v)]);
        }
    } else if v == 7 {
        out.append("7");
        proof {
            reveal_strlit("7");
            assert(out@ =~= old(out)@ + seq![hex_digit_char(v)]);
        }
    } else if v == 8 {
        out.append("8");
        proof {
            reveal_strlit("8");
            assert(out@ =~= old(out)@ + seq![hex_digit_char(v)]);
        }
    } else if v == 9 {
        out.append("9");
        proof {
            reveal_strlit("9");
            assert(out@ =~= old(out)@ + seq![hex_digit_char(v)]);
        }
    } else if v == 10 {
        out.append("a");
        proof {
            reveal_strlit("a");
            assert(out@ =~= old(out)@ + seq![hex_digit_char(v)]);
        }
    } else if v == 11 {
        out.append("b");
        proof {
            reveal_strlit("b");
            assert(out@ =~= old(out)@ + seq![hex_digit_char(v)]);
        }
    } else if v == 12 {
        out.append("c");
        proof {
            reveal_strlit("c");
            assert(out@ =~= old(out)@ + seq![hex_digit_char(v)]);
        }
    } else if v == 13 {
        out.append("d");
        proof {
            reveal_strlit("d");
            assert(out@ =~= old(out)@ + seq![hex_digit_char(v)]);
        }
    } else if v == 14 {
        out.append("e");
        proof {
            reveal_strlit("e");
            assert(out@ =~= old(out)@ + seq![hex_digit_char(v)]);
        }
    } else {
        out.append("f");
        proof {
            reveal_strlit("f");
            assert(out@ =~= old(out)@ + seq![hex_digit_char(v)]);
        }
    }
}

/// Checks a 36-character hyphenated body starting at `off`.
fn check_hyphenated(s: &str, off: usize) -> (b: bool)
    requires
        off + 36 <= s@.len(),
        s@.len() <= usize::MAX,
    ensures
        b == is_hyphenated_uuid(s@.subrange(off as int, off as int + 36)),
{
    let ghost t = s@.subrange(off as int, off as int + 36);
    let mut j: usize = 0;
    while j < 36
        invariant
            off + 36 <= s@.len(),
            s@.len() <= usize::MAX,
            j <= 36,
            t == s@.subrange(off as int, off as int + 36),
            forall|k: int| 0 <= k < j ==> hyphenated_pos_ok(t, k),
        decreases 36 - j,
    {
        let c = s.get_char(off + j);
        proof {
            assert(c == t[j as int]);
        }
        if j == 8 || j == 13 || j == 18 || j == 23 {
            if c != '-' {
                proof {
                    assert(!hyphenated_pos_ok(t, j as int));
                }
                return false;
            }
        } else {
            if !hex_digit_check(c) {
                proof {
                    assert(!hyphenated_pos_ok(t, j as int));
                }
                return false;
            }
        }
        j += 1;
    }
    true
}

/// Checks the plain 32-digit form.
fn check_simple(s: &str) -> (b: bool)
    requires
        s@.len() == 32,
    ensures
        b == is_simple_uuid(s@),
{
    let mut j: usize = 0;
    while j < 32
        invariant
            s@.len() == 32,
            j <= 32,
            forall|k: int| 0 <= k < j ==> is_hex_digit(#[trigger] s@[k]),
        decreases 32 - j,
    {
        let c = s.get_char(j);
        if !hex_digit_check(c) {
            return false;
        }
        j += 1;
    }
    true
}

/// Checks the nine-character URN prefix, letter case ignored.
fn check_urn_prefix(s: &str) -> (b: bool)
    requires
        9 <= s@.len(),
    ensures
        b == is_urn_prefix(s@),
{
    let c0 = s.get_char(0);
    let c1 = s.get_char(1);
    let c2 = s.get_char(2);
    let c3 = s.get_char(3);
    let c4 = s.get_char(4);
    let c5 = s.get_char(5);
    let c6 = s.get_char(6);
    let c7 = s.get_char(7);
    let c8 = s.get_char(8);
    (c0 == 'u' || c0 == 'U') && (c1 == 'r' || c1 == 'R') && (c2 == 'n' || c2 == 'N') && c3 == ':'
        && (c4 == 'u' || c4 == 'U') && (c5 == 'u' || c5 == 'U') && (c6 == 'i' || c6 == 'I') && (c7
        == 'd' || c7 == 'D') && c8 == ':'
}

/// Collects the canonical digits of a 36-character hyphenated body.
fn extract_hyphenated(s: &str, off: usize) -> (d: String)
    requires
        off + 36 <= s@.len(),
        s@.len() <= usize::MAX,
    ensures
        d@ == canon_all(strip_hyphens(s@.subrange(off as int, off as int + 36))),
{
    let ghost t = s@.subrange(off as int, off as int + 36);
    let ghost target = canon_all(strip_hyphens(t));
    proof {
        assert(target.len() == 32);
    }
    let mut d = String::new();
    let mut j: usize = 0;
    while j < 32
        invariant
            off + 36 <= s@.len(),
            s@.len() <= usize::MAX,
            j <= 32,
            t == s@.subrange(off as int, off as int + 36),
            target == canon_all(strip_hyphens(t)),
            target.len() == 32,
            d@ == target.take(j as int),
        decreases 32 - j,
    {
        let p: usize = if j < 8 {
            j
        } else if j < 12 {
            j + 1
        } else if j < 16 {
            j + 2
        } else if j < 20 {
            j + 3
        } else {
            j + 4
        };
        let c = s.get_char(off + p);
        let v = hex_val_of(c);
        push_hex_digit(&mut d, v);
        proof {
            assert(c == t[p as int]);
            assert(strip_hyphens(t)[j as int] == t[p as int]);
            assert(target[j as int] == canon_digit(t[p as int]));
            assert(d@ =~= target.take(j as int + 1));
        }
        j += 1;
    }
    proof {
        assert(d@ =~= target);
    }
    d
}

/// Collects the canonical digits of the plain 32-digit form.
fn extract_simple(s: &str) -> (d: String)
    requires
        s@.len() == 32,
    ensures
        d@ == canon_all(s@),
{
    let ghost target = canon_all(s@);
    proof {
        assert(target.len() == 32);
    }
    let mut d = String::new();
    let mut j: usize = 0;
    while j < 32
        invariant
            s@.len() == 32,
            j <= 32,
            target == canon_all(s@),
            target.len() == 32,
            d@ == target.take(j as int),
        decreases 32 - j,
    {
        let c = s.get_char(j);
        let v = hex_val_of(c);
        push_hex_digit(&mut d, v);
        proof {
            assert(target[j as int] == canon_digit(s@[j as int]));
            assert(d@ =~= target.take(j as int + 1));
        }
        j += 1;
    }
    proof {
        assert(d@ =~= target);
    }
    d
}

/// Hexadecimal values lie below 16, so canonical digits are lowercase hex.
pub proof fn lemma_canon_digit_lower(c: char)
    ensures
        is_lower_hex(canon_digit(c)),
{
}

/// Canonical digit strings are made of lowercase hexadecimal digits.
pub proof fn lemma_canon_all_canon(s: Seq<char>)
    requires
        s.len() == 32,
    ensures
        is_canon_digits(canon_all(s)),
{
    assert forall|j: int| 0 <= j < 32 implies is_lower_hex(#[trigger] canon_all(s)[j]) by {
        assert(canon_all(s)[j] == canon_digit(s[j]));
        lemma_canon_digit_lower(s[j]);
    }
}

/// Parses an identifier string. On a well-formed UUID string the result is
/// its canonical digit string; on any other string the result is `None`.
pub fn parse_uuid(s: &str) -> (r: Option<String>)
    ensures
        (r is Some) == uuid_wf(s@),
        r matches Some(d) ==> d@ == uuid_digits(s@) && is_canon_digits(d@),
{
    let n = s.unicode_len();
    if n == 32 {
        if check_simple(s) {
            let d = extract_simple(s);
            proof {
                lemma_canon_all_canon(s@);
            }
            Some(d)
        } else {
            None
        }
    } else if n == 36 {
        if check_hyphenated(s, 0) {
            let d = extract_hyphenated(s, 0);
            proof {
                assert(s@.subrange(0, 36) =~= s@);
                assert(strip_hyphens(s@).len() == 32);
                lemma_canon_all_canon(strip_hyphens(s@));
            }
            Some(d)
        } else {
            proof {
                assert(s@.subrange(0, 36) =~= s@);
            }
            None
        }
    } else if n == 38 {
        let c0 = s.get_char(0);
        let c37 = s.get_char(37);
        if c0 == '{' && c37 == '}' && check_hyphenated(s, 1) {
            let d = extract_hyphenated(s, 1);
            proof {
                assert(strip_hyphens(s@.subrange(1, 37)).len() == 32);
                lemma_canon_all_canon(strip_hyphens(s@.subrange(1, 37)));
            }
            Some(d)
        } else {
            None
        }
    } else if n == 45 {
        if check_urn_prefix(s) && check_hyphenated(s, 9) {
            let d = extract_hyphenated(s, 9);
            proof {
                assert(strip_hyphens(s@.subrange(9, 45)).len() == 32);
                lemma_canon_all_canon(strip_hyphens(s@.subrange(9, 45)));
            }
            Some(d)
        } else {
            None
        }
    } else {
        None
    }
}

} // verus!
