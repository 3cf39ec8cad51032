//! Numbers and truth values as text.
use vstd::prelude::*;
use vstd::string::StringExecFns;

verus! {

/// The digit that stands for `d`.
pub open spec fn digit(d: nat) -> char {
    "0123456789"@[d as int]
}

/// `n` in decimal, without leading zeros.
pub open spec fn decimal(n: nat) -> Seq<char>
    decreases n,
{
    if n < 10 {
        seq![digit(n)]
    } else {
        decimal(n / 10).push(digit(n % 10))
    }
}

/// A truth value in words.
pub open spec fn truth(b: bool) -> Seq<char> {
    if b {
        "true"@
    } else {
        "false"@
    }
}

/// Writes `n` in decimal.
pub fn number_text(n: u64) -> (r: String)
    ensures
        r@ == decimal(n as nat),
    decreases n,
{
    let digits: &'static str = "0123456789";
    proof {
        reveal_strlit("0123456789");
    }
    let last: usize = (n % 10) as usize;
    let mut text: String = if n < 10 {
        String::new()
    } else {
        number_text(n / 10)
    };
    text.append(digits.substring_char(last, last + 1));
    assert(text@ =~= decimal(n as nat));
    text
}

/// Writes a truth value in words.
pub fn bool_text(b: bool) -> (r: &'static str)
    ensures
        r@ == truth(b),
        b ==> r@ == "true"@,
        !b ==> r@ == "false"@,
{
    if b {
        "true"
    } else {
        "false"
    }
}

/// A number in decimal reads back as that number: it is made of digits, and has no leading zeros.
pub proof fn law_decimals_read_back(n: nat)
    ensures
        decimal(n).fold_left(0int, |v: int, c: char| 10 * v + (c as int - 48)) == n,
        decimal(n).len() > 0,
        forall|i: int| 0 <= i < decimal(n).len() ==> 48 <= (#[trigger] decimal(n)[i]) as int <= 57,
        decimal(n).len() > 1 ==> decimal(n)[0] as int > 48,
        n > 0 ==> decimal(n)[0] as int > 48,
    decreases n,
{
    reveal_strlit("0123456789");
    let read = |v: int, c: char| 10 * v + (c as int - 48);
    reveal_with_fuel(Seq::fold_left, 2);
    if n >= 10 {
        law_decimals_read_back(n / 10);
        assert(decimal(n).drop_last() =~= decimal(n / 10));
        assert(decimal(n).fold_left(0int, read) == read(
            decimal(n / 10).fold_left(0int, read),
            digit(n % 10),
        ));
        assert(decimal(n)[0] == decimal(n / 10)[0]);
    } else {
        assert(decimal(n).drop_last() =~= Seq::empty());
    }
}

/// Truth values are told by their names.
pub proof fn law_truth_is_told()
    ensures
        truth(true) == "true"@,
        truth(false) == "false"@,
{
}

} // verus!
