//! Decimal text of integers, as it appears in reply scripts.
use vstd::prelude::*;
use vstd::string::StringExecFns;

verus! {

/// The character of a decimal digit.
pub open spec fn digit_char(d: nat) -> char {
    if d == 0 { '0' }
    else if d == 1 { '1' }
    else if d == 2 { '2' }
    else if d == 3 { '3' }
    else if d == 4 { '4' }
    else if d == 5 { '5' }
    else if d == 6 { '6' }
    else if d == 7 { '7' }
    else if d == 8 { '8' }
    else { '9' }
}

/// The decimal digits of a natural number, most significant first, no leading zero.
pub open spec fn nat_text(n: nat) -> Seq<char>
    decreases n,
{
    if n < 10 {
        seq![digit_char(n)]
    } else {
        nat_text(n / 10).push(digit_char(n % 10))
    }
}

/// The decimal text of an integer: a minus sign before the digits of a negative one.
pub open spec fn int_text(n: int) -> Seq<char> {
    if n < 0 {
        seq!['-'] + nat_text((-n) as nat)
    } else {
        nat_text(n as nat)
    }
}

/// Whether a character may stand in the decimal text of an integer.
pub open spec fn is_number_char(c: char) -> bool {
    c == '-' || ('0' <= c && c <= '9')
}

proof fn lemma_nat_text_chars(n: nat)
    ensures
        nat_text(n).len() >= 1,
        n >= 10 ==> nat_text(n).len() >= 2,
        forall|i: int| 0 <= i < nat_text(n).len() ==> '0' <= #[trigger] nat_text(n)[i] <= '9',
    decreases n,
{
    if n >= 10 {
        lemma_nat_text_chars(n / 10);
    }
}

/// Every character of an integer's decimal text is a digit or a minus sign.
pub proof fn lemma_int_text_chars(n: int)
    ensures
        int_text(n).len() >= 1,
        forall|i: int| 0 <= i < int_text(n).len() ==> is_number_char(#[trigger] int_text(n)[i]),
{
    if n < 0 {
        lemma_nat_text_chars((-n) as nat);
        assert forall|i: int| 0 <= i < int_text(n).len() implies is_number_char(
            #[trigger] int_text(n)[i]) by {
            if i > 0 {
                assert(int_text(n)[i] == nat_text((-n) as nat)[i - 1]);
            }
        }
    } else {
        lemma_nat_text_chars(n as nat);
    }
}

proof fn lemma_nat_text_injective(n: nat, m: nat)
    requires
        nat_text(n) == nat_text(m),
    ensures
        n == m,
    decreases n,
{
    lemma_nat_text_chars(n);
    lemma_nat_text_chars(m);
    if n >= 10 && m >= 10 {
        let a = nat_text(n);
        assert(a.drop_last() =~= nat_text(n / 10));
        assert(nat_text(m).drop_last() =~= nat_text(m / 10));
        assert(a.last() == digit_char(n % 10));
        assert(nat_text(m).last() == digit_char(m % 10));
        lemma_nat_text_injective(n / 10, m / 10);
    } else if n < 10 && m < 10 {
        assert(nat_text(n)[0] == digit_char(n));
        assert(nat_text(m)[0] == digit_char(m));
    }
}

/// Distinct integers have distinct decimal texts.
pub proof fn lemma_int_text_injective(n: int, m: int)
    requires
        int_text(n) == int_text(m),
    ensures
        n == m,
{
    lemma_nat_text_chars(if n < 0 { (-n) as nat } else { n as nat });
    lemma_nat_text_chars(if m < 0 { (-m) as nat } else { m as nat });
    let t = int_text(n);
    if n < 0 && m < 0 {
        assert(nat_text((-n) as nat) =~= t.subrange(1, t.len() as int));
        assert(nat_text((-m) as nat) =~= t.subrange(1, t.len() as int));
        lemma_nat_text_injective((-n) as nat, (-m) as nat);
    } else if n >= 0 && m >= 0 {
        lemma_nat_text_injective(n as nat, m as nat);
    } else if n < 0 {
        assert(t[0] == '-');
        assert(int_text(m)[0] == nat_text(m as nat)[0]);
    } else {
        assert(int_text(m)[0] == '-');
        assert(t[0] == nat_text(n as nat)[0]);
    }
}

fn digit_str(d: u64) -> (r: &'static str)
    requires
        d < 10,
    ensures
        r@ == seq![digit_char(d as nat)],
{
    proof {
        reveal_strlit("0");
        reveal_strlit("1");
        reveal_strlit("2");
        reveal_strlit("3");
        reveal_strlit("4");
        reveal_strlit("5");
        reveal_strlit("6");
        reveal_strlit("7");
        reveal_strlit("8");
        reveal_strlit("9");
    }
    if d == 0 { "0" }
    else if d == 1 { "1" }
    else if d == 2 { "2" }
    else if d == 3 { "3" }
    else if d == 4 { "4" }
    else if d == 5 { "5" }
    else if d == 6 { "6" }
    else if d == 7 { "7" }
    else if d == 8 { "8" }
    else { "9" }
}

/// The decimal digits of `n`.
pub fn unsigned_text(n: u64) -> (r: String)
    ensures
        r@ == nat_text(n as nat),
    decreases n,
{
    if n < 10 {
        String::from_str(digit_str(n))
    } else {
        let mut s = unsigned_text(n / 10);
        s.append(digit_str(n % 10));
        s
    }
}

/// The decimal text of `n`, as Rust's `Display` writes it.
pub fn signed_text(n: i64) -> (r: String)
    ensures
        r@ == int_text(n as int),
{
    proof {
        reveal_strlit("-");
    }
    if n < 0 {
        let m: u64 = if n == i64::MIN {
            9223372036854775808u64
        } else {
            (-n) as u64
        };
        let digits = unsigned_text(m);
        let s = String::from_str("-");
        s.concat(digits.as_str())
    } else {
        unsigned_text(n as u64)
    }
}

} // verus!
