//! Decimal numerals.
use vstd::prelude::*;

verus! {

/// The digit for `d`.
pub open spec fn digit(d: nat) -> char {
    (48 + d) as char
}

/// The decimal numeral of `n`, without leading zeros.
pub open spec fn decimal(n: nat) -> Seq<char>
    decreases n,
{
    if n < 10 {
        seq![digit(n)]
    } else {
        decimal(n / 10).push(digit(n % 10))
    }
}

/// The decimal numeral of `n`, with at least two digits.
pub open spec fn two_digits(n: nat) -> Seq<char> {
    if n < 10 {
        seq!['0', digit(n)]
    } else {
        decimal(n)
    }
}

/// Appends the decimal numeral of `n`.
pub fn push_decimal(out: &mut String, n: u64)
    ensures
        final(out)@ == old(out)@ + decimal(n as nat),
    decreases n,
{
    if n >= 10 {
        push_decimal(out, n / 10);
    }
    let d: u8 = (n % 10) as u8;
    out.push((48u8 + d) as char);
    assert(out@ =~= old(out)@ + decimal(n as nat));
}

/// The decimal numeral of `n`.
pub fn decimal_text(n: u64) -> (s: String)
    ensures
        s@ == decimal(n as nat),
{
    let mut s = String::new();
    push_decimal(&mut s, n);
    assert(s@ =~= decimal(n as nat));
    s
}

/// A numeral of a signed number: a minus sign for a negative one.
pub open spec fn signed_decimal(n: int) -> Seq<char> {
    if n < 0 {
        seq!['-'] + decimal((-n) as nat)
    } else {
        decimal(n as nat)
    }
}

/// The decimal numeral of `n`.
pub fn signed_decimal_text(n: i64) -> (s: String)
    ensures
        s@ == signed_decimal(n as int),
{
    let mut s = String::new();
    if n < 0 {
        s.push('-');
        let m: u64 = (-(n as i128)) as u64;
        push_decimal(&mut s, m);
    } else {
        push_decimal(&mut s, n as u64);
    }
    assert(s@ =~= signed_decimal(n as int));
    s
}

/// The revision after `n`; revisions wrap.
pub open spec fn next_revision(n: u64) -> u64 {
    if n == u64::MAX {
        0
    } else {
        (n + 1) as u64
    }
}

/// See [`next_revision`].
pub fn bump_revision(n: u64) -> (r: u64)
    ensures
        r == next_revision(n),
{
    n.wrapping_add(1)
}

/// Every character of `s` is an ASCII digit.
pub open spec fn all_digits(s: Seq<char>) -> bool {
    forall|i: int| 0 <= i < s.len() ==> '0' <= #[trigger] s[i] <= '9'
}

/// The number that a sequence of digits denotes.
pub open spec fn digits_value(s: Seq<char>) -> nat
    decreases s.len(),
{
    if s.len() == 0 {
        0
    } else {
        digits_value(s.drop_last()) * 10 + (s.last() as u32 - 48) as nat
    }
}

/// The number that `s` denotes as an unsigned numeral: one or more digits,
/// which one plus sign may precede.
pub open spec fn unsigned_value(s: Seq<char>) -> Option<nat> {
    let d = if s.len() > 0 && s[0] == '+' {
        s.drop_first()
    } else {
        s
    };
    if d.len() > 0 && all_digits(d) {
        Some(digits_value(d))
    } else {
        None
    }
}

/// `digits_value` only grows when digits are added.
proof fn lemma_digits_value_prefix(s: Seq<char>, i: int)
    requires
        0 <= i <= s.len(),
        all_digits(s),
    ensures
        digits_value(s.take(i)) <= digits_value(s),
    decreases s.len() - i,
{
    if i < s.len() {
        assert('0' <= s[i] <= '9');
        assert(s.take(i + 1).drop_last() =~= s.take(i));
        lemma_digits_value_prefix(s, i + 1);
    } else {
        assert(s.take(i) =~= s);
    }
}

/// `str::parse::<usize>`, for the text that `v[from..]` holds.
pub fn parse_usize_from(v: &Vec<char>, from: usize) -> (r: Option<usize>)
    requires
        from <= v@.len(),
    ensures
        match r {
            Some(n) => unsigned_value(v@.skip(from as int)) == Some(n as nat),
            None => match unsigned_value(v@.skip(from as int)) {
                Some(n) => n > usize::MAX,
                None => true,
            },
        },
{
    let ghost s = v@.skip(from as int);
    let start: usize = if from < v.len() && v[from] == '+' {
        from + 1
    } else {
        from
    };
    let ghost d = v@.skip(start as int);
    assert(d =~= if s.len() > 0 && s[0] == '+' {
        s.drop_first()
    } else {
        s
    });
    if start == v.len() {
        return None;
    }
    let mut n: usize = 0;
    let mut i: usize = start;
    while i < v.len()
        invariant
            start <= i <= v@.len(),
            d == v@.skip(start as int),
            d.len() > 0,
            unsigned_value(s) == if all_digits(d) {
                Some(digits_value(d))
            } else {
                None
            },
            s == v@.skip(from as int),
            forall|j: int| 0 <= j < i - start ==> '0' <= #[trigger] d[j] <= '9',
            n == digits_value(d.take(i - start)),
        decreases v@.len() - i,
    {
        let c = v[i];
        assert(c == d[i - start]);
        if c < '0' || c > '9' {
            assert(!all_digits(d));
            return None;
        }
        let k: usize = (c as u32 - 48) as usize;
        assert(d.take(i - start + 1).drop_last() =~= d.take(i - start));
        assert(d.take(i - start + 1).last() == c);
        assert(digits_value(d.take(i - start + 1)) == n * 10 + k);
        if n > (usize::MAX - k) / 10 {
            proof {
                if all_digits(d) {
                    lemma_digits_value_prefix(d, i - start + 1);
                }
                assert(n * 10 + k > usize::MAX);
            }
            return None;
        }
        n = n * 10 + k;
        i = i + 1;
    }
    assert(d.take(d.len() as int) =~= d);
    assert(all_digits(d));
    Some(n)
}

/// A numeral reads back as its number: it holds digits only, the first of which
/// is no zero unless it is the only one.
pub proof fn law_numerals_read_back(n: nat)
    ensures
        unsigned_value(decimal(n)) == Some(n),
        all_digits(decimal(n)),
        n > 0 ==> decimal(n)[0] != '0',
        decimal(0) == seq!['0'],
        n < 100 ==> two_digits(n).len() == 2 && unsigned_value(two_digits(n)) == Some(n),
        signed_decimal(n as int) == decimal(n),
        n > 0 ==> signed_decimal(-(n as int)) == seq!['-'] + decimal(n),
{
    lemma_decimal(n);
    if n < 100 {
        let t = two_digits(n);
        if n < 10 {
            assert(t.drop_last() =~= seq!['0']);
            assert(t.drop_last().drop_last() =~= Seq::<char>::empty());
            assert(digits_value(t.drop_last()) == 0) by {
                assert(digits_value(Seq::<char>::empty()) == 0);
            }
        } else {
            lemma_decimal(n / 10);
            assert(decimal(n / 10).len() == 1);
        }
    }
}

/// What is known of [`decimal`].
proof fn lemma_decimal(n: nat)
    ensures
        decimal(n).len() > 0,
        all_digits(decimal(n)),
        digits_value(decimal(n)) == n,
        n > 0 ==> decimal(n)[0] != '0',
    decreases n,
{
    let d = decimal(n);
    if n < 10 {
        assert(d.drop_last() =~= Seq::<char>::empty());
        assert(digits_value(d.drop_last()) == 0);
    } else {
        lemma_decimal(n / 10);
        assert(d.drop_last() =~= decimal(n / 10));
        assert(d[0] == decimal(n / 10)[0]);
    }
}

/// A revision is never the one before it.
pub proof fn law_revisions_differ(n: u64)
    ensures
        next_revision(n) != n,
        n < u64::MAX ==> next_revision(n) == n + 1,
{
}

/// A number is read from digits alone, with a plus sign before them or without;
/// each digit counts for its place.
pub proof fn law_only_digits_are_numbers(s: Seq<char>, i: int, c: char)
    ensures
        0 <= i < s.len() && !('0' <= s[i] <= '9') && !(i == 0 && s[0] == '+') ==> unsigned_value(
            s,
        ) is None,
        unsigned_value(Seq::empty()) is None,
        unsigned_value(seq!['+']) is None,
        unsigned_value(s) is Some && s[0] != '+' ==> unsigned_value(seq!['+'] + s)
            == unsigned_value(s),
        unsigned_value(s) is Some && '0' <= c <= '9' ==> unsigned_value(s.push(c)) == Some(
            (10 * unsigned_value(s)->0 + (c as u32 - 48)) as nat,
        ),
        '0' <= c <= '9' ==> unsigned_value(seq![c]) == Some((c as u32 - 48) as nat),
{
    let d = if s.len() > 0 && s[0] == '+' {
        s.drop_first()
    } else {
        s
    };
    if 0 <= i < s.len() && !('0' <= s[i] <= '9') && !(i == 0 && s[0] == '+') {
        if s[0] == '+' {
            assert(d[i - 1] == s[i]);
        }
    }
    assert(seq!['+'].drop_first() =~= Seq::<char>::empty());
    assert((seq!['+'] + s).drop_first() =~= s);
    if unsigned_value(s) is Some && '0' <= c <= '9' {
        let e = d.push(c);
        assert(e.drop_last() =~= d);
        if s[0] == '+' {
            assert(s.push(c).drop_first() =~= e);
        }
        assert forall|j: int| 0 <= j < e.len() implies '0' <= #[trigger] e[j] <= '9' by {
            if j < d.len() {
                assert(e[j] == d[j]);
            }
        }
    }
    let one = seq![c];
    assert(one.drop_last() =~= Seq::<char>::empty());
    assert(digits_value(Seq::<char>::empty()) == 0);
}

} // verus!
