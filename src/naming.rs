//! Names of the entries of a rewritten archive: `<ordinal>.webp`.
use vstd::prelude::*;

verus! {

/// The ASCII digit for `d < 10`.
pub open spec fn digit_char(d: nat) -> char {
    if d == 0 { '0' } else if d == 1 { '1' } else if d == 2 { '2' } else if d == 3 { '3' }
    else if d == 4 { '4' } else if d == 5 { '5' } else if d == 6 { '6' } else if d == 7 { '7' }
    else if d == 8 { '8' } else { '9' }
}

/// `c` is an ASCII decimal digit.
pub open spec fn is_digit(c: char) -> bool {
    '0' <= c <= '9'
}

/// Decimal notation of `n`, without leading zeros.
pub open spec fn decimal(n: nat) -> Seq<char>
    decreases n,
{
    if n < 10 {
        seq![digit_char(n)]
    } else {
        decimal(n / 10).push(digit_char(n % 10))
    }
}

/// The extension of every rewritten entry, with its dot.
pub open spec fn webp_suffix() -> Seq<char> {
    seq!['.', 'w', 'e', 'b', 'p']
}

/// Name of the entry that holds output image number `n`.
pub open spec fn entry_name(n: nat) -> Seq<char> {
    decimal(n) + webp_suffix()
}

/// `s` is one or more decimal digits followed by `.webp`.
pub open spec fn is_webp_entry_name(s: Seq<char>) -> bool {
    &&& s.len() > webp_suffix().len()
    &&& s.subrange(s.len() - webp_suffix().len(), s.len() as int) == webp_suffix()
    &&& forall|i: int| 0 <= i < s.len() - webp_suffix().len() ==> is_digit(#[trigger] s[i])
}

proof fn lemma_digit_char(d: nat)
    requires
        d < 10,
    ensures
        is_digit(digit_char(d)),
        forall|e: nat| e < 10 && digit_char(e) == digit_char(d) ==> e == d,
{
}

proof fn lemma_decimal_digits(n: nat)
    ensures
        decimal(n).len() >= 1,
        forall|i: int| 0 <= i < decimal(n).len() ==> is_digit(#[trigger] decimal(n)[i]),
    decreases n,
{
    lemma_digit_char(n % 10);
    if n >= 10 {
        lemma_decimal_digits(n / 10);
        assert forall|i: int| 0 <= i < decimal(n).len() implies is_digit(
            #[trigger] decimal(n)[i],
        ) by {
            if i < decimal(n / 10).len() {
                assert(decimal(n)[i] == decimal(n / 10)[i]);
            }
        }
    } else {
        lemma_digit_char(n);
    }
}

proof fn lemma_decimal_injective(a: nat, b: nat)
    requires
        decimal(a) == decimal(b),
    ensures
        a == b,
    decreases a,
{
    lemma_decimal_digits(a);
    lemma_decimal_digits(b);
    lemma_digit_char(a % 10);
    lemma_digit_char(b % 10);
    if a < 10 && b < 10 {
        lemma_digit_char(a);
        assert(decimal(a)[0] == digit_char(a));
        assert(decimal(b)[0] == digit_char(b));
    } else if a >= 10 && b >= 10 {
        let da = decimal(a);
        assert(da.last() == digit_char(a % 10));
        assert(decimal(b).last() == digit_char(b % 10));
        assert(da.drop_last() == decimal(a / 10));
        assert(decimal(b).drop_last() == decimal(b / 10));
        lemma_decimal_injective(a / 10, b / 10);
        assert(a % 10 == b % 10);
        assert(a == 10 * (a / 10) + a % 10);
        assert(b == 10 * (b / 10) + b % 10);
    } else if a < 10 {
        lemma_decimal_digits(b / 10);
        assert(decimal(b).len() >= 2);
    } else {
        lemma_decimal_digits(a / 10);
        assert(decimal(a).len() >= 2);
    }
}

/// Every entry name is one or more digits followed by `.webp`, and two
/// different ordinals never share a name.
pub proof fn lemma_entry_names_well_formed_and_unique(a: nat, b: nat)
    ensures
        is_webp_entry_name(entry_name(a)),
        a != b ==> entry_name(a) != entry_name(b),
{
    lemma_decimal_digits(a);
    let s = entry_name(a);
    assert(s.subrange(s.len() - 5, s.len() as int) =~= webp_suffix());
    assert forall|i: int| 0 <= i < s.len() - webp_suffix().len() implies is_digit(#[trigger] s[i]) by {
        assert(s[i] == decimal(a)[i]);
    }
    if a != b && entry_name(a) == entry_name(b) {
        let t = entry_name(b);
        lemma_decimal_digits(b);
        assert(s.len() == t.len());
        assert(decimal(a) =~= s.subrange(0, s.len() - 5));
        assert(decimal(b) =~= t.subrange(0, t.len() - 5));
        lemma_decimal_injective(a, b);
    }
}

/// The one-digit string for `d`.
fn digit_str(d: u64) -> (r: &'static str)
    requires
        d < 10,
    ensures
        r@ == seq![digit_char(d as nat)],
{
    proof {
        reveal_strlit("0");
        reveal_strlit("1");
        reveal_strlit("2");
        reveal_strlit("3");
        reveal_strlit("4");
        reveal_strlit("5");
        reveal_strlit("6");
        reveal_strlit("7");
        reveal_strlit("8");
        reveal_strlit("9");
    }
    if d == 0 { "0" } else if d == 1 { "1" } else if d == 2 { "2" } else if d == 3 { "3" }
    else if d == 4 { "4" } else if d == 5 { "5" } else if d == 6 { "6" } else if d == 7 { "7" }
    else if d == 8 { "8" } else { "9" }
}

/// Decimal notation of `n`.
pub fn decimal_string(n: u64) -> (r: String)
    ensures
        r@ == decimal(n as nat),
    decreases n,
{
    if n < 10 {
        String::from_str(digit_str(n))
    } else {
        let mut s = decimal_string(n / 10);
        s.append(digit_str(n % 10));
        proof {
            assert(seq![digit_char((n % 10) as nat)] =~= Seq::<char>::empty().push(digit_char((n % 10) as nat)));
        }
        s
    }
}

/// The entry name `<n>.webp`.
pub fn entry_name_for(n: u64) -> (r: String)
    ensures
        r@ == entry_name(n as nat),
{
    let mut s = decimal_string(n);
    proof {
        reveal_strlit(".webp");
    }
    s.append(".webp");
    proof {
        assert(".webp"@ =~= webp_suffix());
    }
    s
}

} // verus!
