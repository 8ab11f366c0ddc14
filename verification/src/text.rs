//! Byte strings: their lexicographic order, ASCII case folding and searching.

use vstd::prelude::*;

verus! {

/// The outcome of a three-way comparison.
#[derive(Clone, Copy, Debug, PartialEq, Eq, Structural)]
pub enum Order {
    Less,
    Equal,
    Greater,
}

/// How `a` compares to `b` lexicographically, looking only at positions
/// from `i` on.
pub open spec fn lex_order_from(a: Seq<u8>, b: Seq<u8>, i: int) -> Order
    decreases a.len() - i,
{
    if i < 0 || i >= a.len() {
        if i >= b.len() {
            Order::Equal
        } else {
            Order::Less
        }
    } else if i >= b.len() {
        Order::Greater
    } else if a[i] < b[i] {
        Order::Less
    } else if a[i] > b[i] {
        Order::Greater
    } else {
        lex_order_from(a, b, i + 1)
    }
}

/// Lexicographic order over raw bytes: the first differing byte decides, and
/// a proper prefix sorts before the longer string.
pub open spec fn lex_order(a: Seq<u8>, b: Seq<u8>) -> Order {
    lex_order_from(a, b, 0)
}

/// `a` sorts before `b` or equals it.
pub open spec fn lex_le(a: Seq<u8>, b: Seq<u8>) -> bool {
    lex_order(a, b) != Order::Greater
}

/// `a` sorts strictly before `b`.
pub open spec fn lex_lt(a: Seq<u8>, b: Seq<u8>) -> bool {
    lex_order(a, b) == Order::Less
}

pub proof fn lemma_lex_equal_from(a: Seq<u8>, b: Seq<u8>, i: int)
    requires
        0 <= i <= a.len(),
        i <= b.len(),
    ensures
        lex_order_from(a, b, i) == Order::Equal <==> a.skip(i) == b.skip(i),
    decreases a.len() - i,
{
    if i >= a.len() || i >= b.len() {
        if i >= a.len() && i >= b.len() {
            assert(a.skip(i) =~= b.skip(i));
        } else {
            assert(a.skip(i).len() != b.skip(i).len());
        }
    } else if a[i] == b[i] {
        lemma_lex_equal_from(a, b, i + 1);
        if a.skip(i + 1) == b.skip(i + 1) {
            assert forall|k: int| 0 <= k < a.skip(i).len() implies a.skip(i)[k] == b.skip(i)[k] by {
                if k > 0 {
                    assert(a.skip(i)[k] == a.skip(i + 1)[k - 1]);
                    assert(b.skip(i)[k] == b.skip(i + 1)[k - 1]);
                }
            }
            assert(a.skip(i).len() == a.skip(i + 1).len() + 1);
            assert(b.skip(i).len() == b.skip(i + 1).len() + 1);
            assert(a.skip(i) =~= b.skip(i));
        }
        if a.skip(i) == b.skip(i) {
            assert(a.skip(i + 1) =~= a.skip(i).skip(1));
            assert(b.skip(i + 1) =~= b.skip(i).skip(1));
        }
    } else {
        assert(a.skip(i)[0] != b.skip(i)[0]);
    }
}

/// Two byte strings compare equal exactly when they are the same string.
pub proof fn lemma_lex_equal(a: Seq<u8>, b: Seq<u8>)
    ensures
        lex_order(a, b) == Order::Equal <==> a == b,
{
    lemma_lex_equal_from(a, b, 0);
    assert(a.skip(0) =~= a);
    assert(b.skip(0) =~= b);
}

pub proof fn lemma_lex_flip_from(a: Seq<u8>, b: Seq<u8>, i: int)
    requires
        0 <= i,
    ensures
        lex_order_from(a, b, i) == Order::Less <==> lex_order_from(b, a, i) == Order::Greater,
        lex_order_from(a, b, i) == Order::Equal <==> lex_order_from(b, a, i) == Order::Equal,
    decreases a.len() - i,
{
    if i < a.len() && i < b.len() && a[i] == b[i] {
        lemma_lex_flip_from(a, b, i + 1);
    }
}

/// Swapping the arguments mirrors the outcome.
pub proof fn lemma_lex_flip(a: Seq<u8>, b: Seq<u8>)
    ensures
        lex_lt(a, b) <==> lex_order(b, a) == Order::Greater,
        lex_order(a, b) == Order::Equal <==> lex_order(b, a) == Order::Equal,
        lex_le(a, b) || lex_le(b, a),
{
    lemma_lex_flip_from(a, b, 0);
    lemma_lex_flip_from(b, a, 0);
}

pub proof fn lemma_lex_transitive_from(a: Seq<u8>, b: Seq<u8>, c: Seq<u8>, i: int)
    requires
        0 <= i,
        lex_order_from(a, b, i) != Order::Greater,
        lex_order_from(b, c, i) != Order::Greater,
    ensures
        lex_order_from(a, c, i) != Order::Greater,
        lex_order_from(a, b, i) == Order::Less || lex_order_from(b, c, i) == Order::Less
            ==> lex_order_from(a, c, i) == Order::Less,
    decreases a.len() - i,
{
    if i < a.len() && i < b.len() && i < c.len() && a[i] == b[i] && b[i] == c[i] {
        lemma_lex_transitive_from(a, b, c, i + 1);
    }
}

/// The order is transitive, and strict as soon as one of the two steps is.
pub proof fn lemma_lex_transitive(a: Seq<u8>, b: Seq<u8>, c: Seq<u8>)
    requires
        lex_le(a, b),
        lex_le(b, c),
    ensures
        lex_le(a, c),
        lex_lt(a, b) || lex_lt(b, c) ==> lex_lt(a, c),
{
    lemma_lex_transitive_from(a, b, c, 0);
}

/// Compares two byte strings lexicographically.
pub fn compare_bytes(a: &[u8], b: &[u8]) -> (order: Order)
    ensures
        order == lex_order(a@, b@),
{
    let mut i: usize = 0;
    while i < a.len() && i < b.len()
        invariant
            i <= a.len(),
            i <= b.len(),
            lex_order(a@, b@) == lex_order_from(a@, b@, i as int),
        decreases a.len() - i,
    {
        if a[i] < b[i] {
            return Order::Less;
        }
        if a[i] > b[i] {
            return Order::Greater;
        }
        i += 1;
    }
    if i < b.len() {
        Order::Less
    } else if i < a.len() {
        Order::Greater
    } else {
        Order::Equal
    }
}

/// Whether two byte strings are the same.
pub fn bytes_equal(a: &[u8], b: &[u8]) -> (same: bool)
    ensures
        same == (a@ == b@),
{
    proof {
        lemma_lex_equal(a@, b@);
    }
    compare_bytes(a, b) == Order::Equal
}

/// The lower-case form of an ASCII letter; any other byte is kept.
pub open spec fn ascii_lower(b: u8) -> u8 {
    if 0x41 <= b <= 0x5a {
        (b + 0x20) as u8
    } else {
        b
    }
}

/// Two byte strings that differ at most in the case of their ASCII letters.
pub open spec fn same_ignoring_ascii_case(a: Seq<u8>, b: Seq<u8>) -> bool {
    &&& a.len() == b.len()
    &&& forall|i: int| 0 <= i < a.len() ==> ascii_lower(#[trigger] a[i]) == ascii_lower(b[i])
}

fn to_ascii_lower(b: u8) -> (lower: u8)
    ensures
        lower == ascii_lower(b),
{
    if 0x41 <= b && b <= 0x5a {
        b + 0x20
    } else {
        b
    }
}

/// Compares two byte strings without regard to the case of ASCII letters.
pub fn eq_ignore_ascii_case(a: &[u8], b: &[u8]) -> (same: bool)
    ensures
        same == same_ignoring_ascii_case(a@, b@),
{
    if a.len() != b.len() {
        return false;
    }
    let mut i: usize = 0;
    while i < a.len()
        invariant
            i <= a.len(),
            a.len() == b.len(),
            forall|k: int| 0 <= k < i ==> ascii_lower(#[trigger] a@[k]) == ascii_lower(b@[k]),
        decreases a.len() - i,
    {
        if to_ascii_lower(a[i]) != to_ascii_lower(b[i]) {
            return false;
        }
        i += 1;
    }
    true
}

/// `i` is where `needle` first occurs in `s`.
pub open spec fn is_first_index_of(s: Seq<u8>, needle: u8, i: int) -> bool {
    &&& 0 <= i < s.len()
    &&& s[i] == needle
    &&& forall|k: int| 0 <= k < i ==> s[k] != needle
}

/// The position of the first `needle` in `s`, if there is one.
pub open spec fn first_index_of(s: Seq<u8>, needle: u8) -> Option<int> {
    if exists|i: int| is_first_index_of(s, needle, i) {
        Some(choose|i: int| is_first_index_of(s, needle, i))
    } else {
        None
    }
}

/// The first occurrence is unique, so `first_index_of` names it.
pub proof fn lemma_first_index_of(s: Seq<u8>, needle: u8, i: int)
    requires
        is_first_index_of(s, needle, i),
    ensures
        first_index_of(s, needle) == Some(i),
{
    let j = choose|j: int| is_first_index_of(s, needle, j);
    assert(is_first_index_of(s, needle, j));
    if j < i {
        assert(s[j] == needle);
    }
    if i < j {
        assert(s[i] == needle);
    }
}

/// Without any occurrence there is no first one.
pub proof fn lemma_first_index_of_none(s: Seq<u8>, needle: u8)
    requires
        forall|k: int| 0 <= k < s.len() ==> s[k] != needle,
    ensures
        first_index_of(s, needle) is None,
{
}

/// Finds the first `needle` in `s`.
pub fn find_byte(s: &[u8], needle: u8) -> (found: Option<usize>)
    ensures
        found matches Some(i) ==> first_index_of(s@, needle) == Some(i as int) && i < s.len(),
        found is None ==> first_index_of(s@, needle) is None,
{
    let mut i: usize = 0;
    while i < s.len()
        invariant
            i <= s.len(),
            forall|k: int| 0 <= k < i ==> s@[k] != needle,
        decreases s.len() - i,
    {
        if s[i] == needle {
            proof {
                lemma_first_index_of(s@, needle, i as int);
            }
            return Some(i);
        }
        i += 1;
    }
    proof {
        lemma_first_index_of_none(s@, needle);
    }
    None
}

/// Appends `more` to `out`.
pub fn append_bytes(out: &mut Vec<u8>, more: &[u8])
    ensures
        final(out)@ == old(out)@ + more@,
{
    let mut i: usize = 0;
    while i < more.len()
        invariant
            i <= more.len(),
            out@ == old(out)@ + more@.take(i as int),
        decreases more.len() - i,
    {
        out.push(more[i]);
        assert(more@.take(i + 1) =~= more@.take(i as int).push(more@[i as int]));
        i += 1;
    }
    assert(more@.take(more.len() as int) =~= more@);
}

/// A copy of `s`.
pub fn copy_bytes(s: &[u8]) -> (v: Vec<u8>)
    ensures
        v@ == s@,
{
    let mut v = Vec::new();
    append_bytes(&mut v, s);
    v
}

/// Whether `needle` occurs in `s` as a run of consecutive bytes.
pub open spec fn contains_run(s: Seq<u8>, needle: Seq<u8>) -> bool {
    exists|i: int| 0 <= i && i + needle.len() <= s.len() && #[trigger] s.subrange(
        i,
        i + needle.len(),
    ) == needle
}

/// The character of the decimal digit `d`.
pub open spec fn digit_char(d: nat) -> char
    recommends
        d < 10,
{
    if d == 0 {
        '0'
    } else if d == 1 {
        '1'
    } else if d == 2 {
        '2'
    } else if d == 3 {
        '3'
    } else if d == 4 {
        '4'
    } else if d == 5 {
        '5'
    } else if d == 6 {
        '6'
    } else if d == 7 {
        '7'
    } else if d == 8 {
        '8'
    } else {
        '9'
    }
}

/// The decimal numeral of `n`, without sign or leading zero.
pub open spec fn decimal(n: nat) -> Seq<char>
    decreases n,
{
    if n < 10 {
        seq![digit_char(n)]
    } else {
        decimal(n / 10).push(digit_char(n % 10))
    }
}

fn digit_str(d: u64) -> (s: &'static str)
    requires
        d < 10,
    ensures
        s@ == seq![digit_char(d as nat)],
{
    proof {
        reveal_strlit("0");
        reveal_strlit("1");
        reveal_strlit("2");
        reveal_strlit("3");
        reveal_strlit("4");
        reveal_strlit("5");
        reveal_strlit("6");
        reveal_strlit("7");
        reveal_strlit("8");
        reveal_strlit("9");
    }
    let s = if d == 0 {
        "0"
    } else if d == 1 {
        "1"
    } else if d == 2 {
        "2"
    } else if d == 3 {
        "3"
    } else if d == 4 {
        "4"
    } else if d == 5 {
        "5"
    } else if d == 6 {
        "6"
    } else if d == 7 {
        "7"
    } else if d == 8 {
        "8"
    } else {
        "9"
    };
    assert(s@ =~= seq![digit_char(d as nat)]);
    s
}

/// Appends the decimal numeral of `n` to `out`.
pub fn push_decimal(out: &mut String, n: u64)
    ensures
        final(out)@ == old(out)@ + decimal(n as nat),
    decreases n,
{
    if n >= 10 {
        push_decimal(out, n / 10);
        out.append(digit_str(n % 10));
        assert(out@ =~= old(out)@ + decimal(n as nat));
    } else {
        out.append(digit_str(n));
    }
}

/// The decimal numeral of `n` as a string.
pub fn decimal_string(n: u64) -> (s: String)
    ensures
        s@ == decimal(n as nat),
{
    let mut s = String::new();
    push_decimal(&mut s, n);
    assert(s@ =~= decimal(n as nat));
    s
}

} // verus!
