//! Text helpers over the characters of a string.
use vstd::prelude::*;
use vstd::string::*;

verus! {

/// Index of the first `c` in `s`, if any.
pub open spec fn first_index_of(s: Seq<char>, c: char) -> Option<int> {
    if exists|i: int| 0 <= i < s.len() && s[i] == c {
        Some(choose|i: int| 0 <= i < s.len() && s[i] == c && forall|j: int| 0 <= j < i ==> s[j] != c)
    } else {
        None
    }
}

/// The text before the first `c`, or all of `s` when it holds none.
pub open spec fn head_of(s: Seq<char>, c: char) -> Seq<char> {
    match first_index_of(s, c) {
        Some(i) => s.subrange(0, i),
        None => s,
    }
}

/// The text after the first `c`, if `s` holds one.
pub open spec fn tail_of(s: Seq<char>, c: char) -> Option<Seq<char>> {
    match first_index_of(s, c) {
        Some(i) => Some(s.subrange(i + 1, s.len() as int)),
        None => None,
    }
}

/// Two texts hold the same characters.
pub fn same_text(a: &str, b: &str) -> (r: bool)
    ensures
        r == (a@ == b@),
{
    let n = a.unicode_len();
    if n != b.unicode_len() {
        return false;
    }
    let mut i: usize = 0;
    while i < n
        invariant
            n == a@.len(),
            n == b@.len(),
            i <= n,
            forall|j: int| 0 <= j < i ==> a@[j] == b@[j],
        decreases n - i,
    {
        if a.get_char(i) != b.get_char(i) {
            return false;
        }
        i = i + 1;
    }
    assert(a@ =~= b@);
    true
}

/// Splits `s` at its first `c`: the text before it, and the text after it
/// if there is a `c`.
pub fn split_first<'a>(s: &'a str, c: char) -> (r: (&'a str, Option<&'a str>))
    ensures
        r.0@ == head_of(s@, c),
        match r.1 {
            Some(t) => tail_of(s@, c) == Some(t@),
            None => tail_of(s@, c) is None,
        },
{
    let n = s.unicode_len();
    let mut i: usize = 0;
    while i < n && s.get_char(i) != c
        invariant
            n == s@.len(),
            i <= n,
            forall|j: int| 0 <= j < i ==> s@[j] != c,
        decreases n - i,
    {
        i = i + 1;
    }
    if i < n {
        assert(first_index_of(s@, c) == Some(i as int)) by {
            let k = choose|k: int| 0 <= k < s@.len() && s@[k] == c && forall|j: int| 0 <= j < k ==> s@[j] != c;
            assert(k == i as int);
        }
        (s.substring_char(0, i), Some(s.substring_char(i + 1, n)))
    } else {
        assert(first_index_of(s@, c) is None);
        assert(s@.subrange(0, n as int) =~= s@);
        (s, None)
    }
}

/// Whether `s` begins with `p`.
pub open spec fn begins_with(s: Seq<char>, p: Seq<char>) -> bool {
    p.len() <= s.len() && s.subrange(0, p.len() as int) == p
}

/// The text after the last `c`, or all of `s` when it holds none.
pub open spec fn last_segment(s: Seq<char>, c: char) -> Seq<char> {
    if exists|i: int| 0 <= i < s.len() && s[i] == c {
        let k = choose|k: int| 0 <= k < s.len() && s[k] == c && forall|j: int| k < j < s.len() ==> s[j] != c;
        s.subrange(k + 1, s.len() as int)
    } else {
        s
    }
}

/// Whether `s` begins with `p`.
pub fn starts_with(s: &str, p: &str) -> (r: bool)
    ensures
        r == begins_with(s@, p@),
{
    let n = s.unicode_len();
    let m = p.unicode_len();
    if m > n {
        return false;
    }
    let mut i: usize = 0;
    while i < m
        invariant
            n == s@.len(),
            m == p@.len(),
            m <= n,
            i <= m,
            forall|j: int| 0 <= j < i ==> s@[j] == p@[j],
        decreases m - i,
    {
        if s.get_char(i) != p.get_char(i) {
            assert(s@.subrange(0, m as int)[i as int] != p@[i as int]);
            return false;
        }
        i = i + 1;
    }
    assert(s@.subrange(0, m as int) =~= p@);
    true
}

/// The text after the last `c` of `s`, or all of `s`.
pub fn after_last<'a>(s: &'a str, c: char) -> (r: &'a str)
    ensures
        r@ == last_segment(s@, c),
{
    let n = s.unicode_len();
    let mut k: usize = n;
    while k > 0 && s.get_char(k - 1) != c
        invariant
            n == s@.len(),
            k <= n,
            forall|j: int| k <= j < n ==> s@[j] != c,
        decreases k,
    {
        k = k - 1;
    }
    if k > 0 {
        proof {
            let w = choose|w: int| 0 <= w < s@.len() && s@[w] == c && forall|j: int| w < j < s@.len() ==> s@[j] != c;
            assert(s@[k - 1] == c);
            assert(w == k - 1) by {
                if w < k - 1 {
                    assert(s@[k - 1] != c);
                }
                if w > k - 1 {
                    assert(s@[w] != c);
                }
            }
        }
        s.substring_char(k, n)
    } else {
        assert(!exists|i: int| 0 <= i < s@.len() && s@[i] == c);
        s
    }
}

pub open spec fn is_digit(c: char) -> bool {
    '0' <= c <= '9'
}

pub open spec fn digit_value(c: char) -> nat {
    (c as nat - '0' as nat) as nat
}

/// The value of a string of decimal digits.
pub open spec fn digits_value(d: Seq<char>) -> nat
    decreases d.len(),
{
    if d.len() == 0 {
        0
    } else {
        digits_value(d.drop_last()) * 10 + digit_value(d.last())
    }
}

pub open spec fn digit_char(d: nat) -> char {
    if d == 0 { '0' } else if d == 1 { '1' } else if d == 2 { '2' } else if d == 3 { '3' } else if d == 4 { '4' }
    else if d == 5 { '5' } else if d == 6 { '6' } else if d == 7 { '7' } else if d == 8 { '8' } else { '9' }
}

/// The decimal writing of `n`, without leading zeros.
pub open spec fn decimal_text(n: nat) -> Seq<char>
    decreases n,
{
    if n < 10 {
        seq![digit_char(n)]
    } else {
        decimal_text(n / 10).push(digit_char(n % 10))
    }
}

fn digit_str(d: u64) -> (r: &'static str)
    requires
        d < 10,
    ensures
        r@ == seq![digit_char(d as nat)],
{
    proof {
        reveal_strlit("0");
        reveal_strlit("1");
        reveal_strlit("2");
        reveal_strlit("3");
        reveal_strlit("4");
        reveal_strlit("5");
        reveal_strlit("6");
        reveal_strlit("7");
        reveal_strlit("8");
        reveal_strlit("9");
    }
    let r = if d == 0 { "0" } else if d == 1 { "1" } else if d == 2 { "2" } else if d == 3 { "3" } else if d == 4 { "4" }
    else if d == 5 { "5" } else if d == 6 { "6" } else if d == 7 { "7" } else if d == 8 { "8" } else { "9" };
    assert(r@ =~= seq![digit_char(d as nat)]);
    r
}

/// Appends the decimal writing of `n`.
pub fn push_decimal(s: &mut String, n: u64)
    ensures
        final(s)@ == old(s)@ + decimal_text(n as nat),
    decreases n,
{
    if n >= 10 {
        push_decimal(s, n / 10);
    }
    s.append(digit_str(n % 10));
    proof {
        if n >= 10 {
            assert(decimal_text(n as nat) == decimal_text((n / 10) as nat).push(digit_char((n % 10) as nat)));
        }
    }
    assert(s@ =~= old(s)@ + decimal_text(n as nat));
}

proof fn lemma_digit_char(d: nat)
    requires
        d < 10,
    ensures
        is_digit(digit_char(d)),
        digit_value(digit_char(d)) == d,
{
    assert('0' as nat == 48 && '1' as nat == 49 && '2' as nat == 50 && '3' as nat == 51 && '4' as nat == 52);
    assert('5' as nat == 53 && '6' as nat == 54 && '7' as nat == 55 && '8' as nat == 56 && '9' as nat == 57);
}

/// The decimal writing of a number is a non-empty string of digits, whose
/// value is the number.
pub proof fn lemma_decimal_text(n: nat)
    ensures
        decimal_text(n).len() > 0,
        forall|i: int| 0 <= i < decimal_text(n).len() ==> is_digit(#[trigger] decimal_text(n)[i]),
        digits_value(decimal_text(n)) == n,
    decreases n,
{
    lemma_digit_char((n % 10) as nat);
    if n >= 10 {
        lemma_decimal_text(n / 10);
        let p = decimal_text(n / 10);
        let t = decimal_text(n);
        assert(t.drop_last() =~= p);
        assert forall|i: int| 0 <= i < t.len() implies is_digit(#[trigger] t[i]) by {
            if i < p.len() {
                assert(t[i] == p[i]);
            }
        }
        assert(t.last() == digit_char((n % 10) as nat));
        assert(digits_value(t) == digits_value(p) * 10 + digit_value(digit_char((n % 10) as nat)));
        assert((n / 10) * 10 + n % 10 == n) by (nonlinear_arith);
    } else {
        let t = decimal_text(n);
        assert(t.drop_last() =~= Seq::<char>::empty());
        assert(n % 10 == n);
        assert(digits_value(t) == digits_value(t.drop_last()) * 10 + digit_value(t.last()));
    }
}

/// Splitting `p`, a text without `c`, followed by `c` and `q`, at its first
/// `c` gives back `p` and `q`.
pub proof fn lemma_split_joined(p: Seq<char>, c: char, q: Seq<char>)
    requires
        !p.contains(c),
    ensures
        head_of(p + seq![c] + q, c) == p,
        tail_of(p + seq![c] + q, c) == Some(q),
{
    let s = p + seq![c] + q;
    let n = p.len() as int;
    assert(s[n] == c);
    let k = choose|k: int| 0 <= k < s.len() && s[k] == c && forall|j: int| 0 <= j < k ==> s[j] != c;
    assert(k == n) by {
        if k < n {
            assert(s[k] == p[k]);
        }
        if k > n {
            assert(s[n] != c);
        }
    }
    assert(first_index_of(s, c) == Some(n));
    assert(s.subrange(0, n) =~= p);
    assert(s.subrange(n + 1, s.len() as int) =~= q);
}

/// A text without `c` is its own head, and has no tail.
pub proof fn lemma_split_plain(p: Seq<char>, c: char)
    requires
        !p.contains(c),
    ensures
        head_of(p, c) == p,
        tail_of(p, c) is None,
{
    if exists|i: int| 0 <= i < p.len() && p[i] == c {
        let i = choose|i: int| 0 <= i < p.len() && p[i] == c;
        assert(p.contains(c));
    }
}

/// Whether every character of `d` is a decimal digit.
pub open spec fn all_digits(d: Seq<char>) -> bool {
    forall|i: int| 0 <= i < d.len() ==> is_digit(d[i])
}

/// The value of an unsigned decimal integer as the standard library reads
/// it: an optional `+` sign, then one or more ASCII digits.
pub open spec fn decimal_value(s: Seq<char>) -> Option<nat> {
    let d = if s.len() > 0 && s[0] == '+' { s.drop_first() } else { s };
    if d.len() > 0 && all_digits(d) {
        Some(digits_value(d))
    } else {
        None
    }
}

/// The decimal value of `s`, if it is at most `max`.
pub open spec fn parsed_up_to(s: Seq<char>, max: nat) -> Option<nat> {
    match decimal_value(s) {
        Some(v) => if v <= max { Some(v) } else { None },
        None => None,
    }
}

/// The value of a platform id written in decimal: a non-zero `u64`.
pub open spec fn parsed_id(s: Seq<char>) -> Option<u64> {
    match parsed_up_to(s, u64::MAX as nat) {
        Some(v) => if v != 0 { Some(v as u64) } else { None },
        None => None,
    }
}

/// Why the standard library refuses to read a text as an integer, in the
/// cases that arise for a non-zero `u64`.
#[derive(Clone, Copy, Debug, PartialEq, Eq, Structural)]
pub enum IntErrorKind {
    Empty,
    InvalidDigit,
    PosOverflow,
    Zero,
}

/// Index of the first character of `d` that is no digit, or its length.
#[verifier::opaque]
pub open spec fn digit_run(d: Seq<char>) -> int {
    if exists|i: int| 0 <= i < d.len() && !is_digit(d[i]) {
        choose|i: int| 0 <= i < d.len() && !is_digit(d[i]) && forall|j: int| 0 <= j < i ==> is_digit(d[j])
    } else {
        d.len() as int
    }
}

/// Why a text is refused as a non-zero `u64` id, if it is. The digits are
/// read from the left: the first non-digit, or a value past the maximum,
/// whichever comes first, decides; a lone sign is an invalid digit.
pub open spec fn id_error(s: Seq<char>) -> Option<IntErrorKind> {
    if s.len() == 0 {
        Some(IntErrorKind::Empty)
    } else if s == seq!['+'] || s == seq!['-'] {
        Some(IntErrorKind::InvalidDigit)
    } else {
        let d = if s[0] == '+' { s.drop_first() } else { s };
        let k = digit_run(d);
        if digits_value(d.take(k)) > u64::MAX as nat {
            Some(IntErrorKind::PosOverflow)
        } else if k < d.len() {
            Some(IntErrorKind::InvalidDigit)
        } else if digits_value(d) == 0 {
            Some(IntErrorKind::Zero)
        } else {
            None
        }
    }
}

/// The standard library's wording of each refusal.
pub open spec fn int_error_text(k: IntErrorKind) -> Seq<char> {
    match k {
        IntErrorKind::Empty => "cannot parse integer from empty string"@,
        IntErrorKind::InvalidDigit => "invalid digit found in string"@,
        IntErrorKind::PosOverflow => "number too large to fit in target type"@,
        IntErrorKind::Zero => "number would be zero for non-zero type"@,
    }
}

/// The wording of the refusal of `s` as an id; empty when it is accepted.
pub open spec fn id_error_text(s: Seq<char>) -> Seq<char> {
    match id_error(s) {
        Some(k) => int_error_text(k),
        None => Seq::empty(),
    }
}

/// The digit run ends at `k` when every character before `k` is a digit
/// and `k` ends the text or holds a non-digit.
proof fn lemma_digit_run(d: Seq<char>, k: int)
    requires
        0 <= k <= d.len(),
        forall|j: int| 0 <= j < k ==> is_digit(d[j]),
        k == d.len() || !is_digit(d[k]),
    ensures
        digit_run(d) == k,
{
    reveal(digit_run);
    if k < d.len() {
        let w = choose|w: int| 0 <= w < d.len() && !is_digit(d[w]) && forall|j: int| 0 <= j < w ==> is_digit(d[j]);
        assert(w == k) by {
            if w < k {
                assert(is_digit(d[w]));
            }
            if w > k {
                assert(is_digit(d[k]));
            }
        }
    }
}

proof fn lemma_id_error_digits(s: Seq<char>, d: Seq<char>)
    requires
        s.len() > 0,
        s != seq!['+'],
        s != seq!['-'],
        d == (if s[0] == '+' { s.drop_first() } else { s }),
    ensures
        d.len() > 0,
        (forall|i: int| 0 <= i < d.len() ==> is_digit(d[i])) ==> digit_run(d) == d.len() && d.take(digit_run(d)) == d,
        !(forall|i: int| 0 <= i < d.len() ==> is_digit(d[i])) ==> digit_run(d) < d.len(),
{
    if s[0] == '+' && s.len() == 1 {
        assert(s =~= seq!['+']);
    }
    if forall|i: int| 0 <= i < d.len() ==> is_digit(d[i]) {
        lemma_digit_run(d, d.len() as int);
        assert(d.take(d.len() as int) =~= d);
    } else {
        let k = lemma_first_non_digit(d, 0);
        lemma_digit_run(d, k);
    }
}

proof fn lemma_first_non_digit(d: Seq<char>, i: int) -> (k: int)
    requires
        0 <= i <= d.len(),
        forall|j: int| 0 <= j < i ==> is_digit(d[j]),
        exists|w: int| i <= w < d.len() && !is_digit(d[w]),
    ensures
        i <= k < d.len(),
        !is_digit(d[k]),
        forall|j: int| 0 <= j < k ==> is_digit(d[j]),
    decreases d.len() - i,
{
    if !is_digit(d[i]) {
        i
    } else {
        let w = choose|w: int| i <= w < d.len() && !is_digit(d[w]);
        assert(w != i);
        lemma_first_non_digit(d, i + 1)
    }
}

/// A text is refused as an id exactly when a reason for it is found.
pub proof fn lemma_id_error_exact(s: Seq<char>)
    ensures
        (parsed_id(s) is None) == (id_error(s) is Some),
{
    if s.len() == 0 {
        assert(decimal_value(s) is None);
    } else if s == seq!['+'] {
        assert(s.drop_first().len() == 0);
        assert(decimal_value(s) is None);
        assert(id_error(s) is Some);
    } else if s == seq!['-'] {
        assert(s[0] == '-');
        assert('-' as nat == 45 && '0' as nat == 48);
        assert(!is_digit(s[0]));
        assert(!all_digits(s));
        assert(decimal_value(s) is None);
        assert(id_error(s) is Some);
    } else {
        let d = if s[0] == '+' { s.drop_first() } else { s };
        lemma_id_error_digits(s, d);
        if forall|i: int| 0 <= i < d.len() ==> is_digit(d[i]) {
            assert(all_digits(d));
            assert(decimal_value(s) == Some(digits_value(d)));
        } else {
            let w = choose|i: int| 0 <= i < d.len() && !is_digit(d[i]);
            assert(!all_digits(d));
            assert(decimal_value(s) is None);
            assert(id_error(s) is Some);
        }
    }
}

/// The wording of a refusal.
pub fn int_error_message(k: IntErrorKind) -> (r: &'static str)
    ensures
        r@ == int_error_text(k),
{
    match k {
        IntErrorKind::Empty => "cannot parse integer from empty string",
        IntErrorKind::InvalidDigit => "invalid digit found in string",
        IntErrorKind::PosOverflow => "number too large to fit in target type",
        IntErrorKind::Zero => "number would be zero for non-zero type",
    }
}

/// Why `s` is refused as a non-zero `u64` id, if it is.
pub fn id_refusal(s: &str) -> (r: Option<IntErrorKind>)
    ensures
        r == id_error(s@),
{
    let n = s.unicode_len();
    if n == 0 {
        return Some(IntErrorKind::Empty);
    }
    let c0 = s.get_char(0);
    if n == 1 && (c0 == '+' || c0 == '-') {
        assert(s@ =~= seq![c0]);
        return Some(IntErrorKind::InvalidDigit);
    }
    proof {
        if s@ == seq!['+'] || s@ == seq!['-'] {
            assert(s@.len() == 1);
        }
    }
    let start: usize = if c0 == '+' { 1 } else { 0 };
    let ghost d = s@.subrange(start as int, n as int);
    assert(d =~= (if s@[0] == '+' { s@.drop_first() } else { s@ }));
    let mut i: usize = start;
    let mut acc: u64 = 0;
    let mut over = false;
    while i < n && '0' <= s.get_char(i) && s.get_char(i) <= '9'
        invariant
            n == s@.len(),
            start <= i <= n,
            d == s@.subrange(start as int, n as int),
            forall|j: int| 0 <= j < i - start ==> is_digit(d[j]),
            !over ==> acc as nat == digits_value(d.take(i - start)),
            over ==> digits_value(d.take(i - start)) > u64::MAX as nat,
        decreases n - i,
    {
        let c = s.get_char(i);
        let dg = (c as u32 - '0' as u32) as u64;
        let ghost j = i - start;
        proof {
            assert(d[j] == c);
            assert(d.take(j + 1).drop_last() =~= d.take(j));
            assert(digits_value(d.take(j + 1)) == digits_value(d.take(j)) * 10 + dg as nat);
        }
        if !over {
            if acc > (u64::MAX - dg) / 10 {
                assert(acc as nat * 10 + dg as nat > u64::MAX as nat) by (nonlinear_arith)
                    requires
                        acc > (u64::MAX - dg) / 10,
                        dg <= 9,
                ;
                over = true;
            } else {
                assert(acc as nat * 10 + dg as nat <= u64::MAX as nat) by (nonlinear_arith)
                    requires
                        acc <= (u64::MAX - dg) / 10,
                        dg <= 9,
                ;
                acc = acc * 10 + dg;
            }
        }
        i = i + 1;
    }
    let ghost k = i - start;
    proof {
        if i < n {
            assert(!is_digit(d[k]));
        }
        lemma_digit_run(d, k);
    }
    if over {
        Some(IntErrorKind::PosOverflow)
    } else if i < n {
        Some(IntErrorKind::InvalidDigit)
    } else {
        assert(d.take(k) =~= d);
        if acc == 0 {
            Some(IntErrorKind::Zero)
        } else {
            None
        }
    }
}

} // verus!
