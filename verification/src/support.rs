use vstd::prelude::*;
use vstd::string::*;

verus! {

/// Whether two string slices hold the same characters.
pub fn str_eq(a: &str, b: &str) -> (r: bool)
    ensures
        r == (a@ == b@),
{
    let n = a.unicode_len();
    if n != b.unicode_len() {
        return false;
    }
    let mut i: usize = 0;
    while i < n
        invariant
            i <= n,
            n == a@.len(),
            n == b@.len(),
            forall|k: int| 0 <= k < i ==> a@[k] == b@[k],
        decreases n - i,
    {
        if a.get_char(i) != b.get_char(i) {
            return false;
        }
        i += 1;
    }
    assert(a@ =~= b@);
    true
}

/// The character of a decimal digit.
pub open spec fn digit_char(d: nat) -> char {
    ('0' as int + d) as char
}

/// The decimal digits of a number, most significant first, without leading zeros.
pub open spec fn decimal_chars(n: nat) -> Seq<char>
    decreases n,
{
    if n < 10 {
        seq![digit_char(n)]
    } else {
        decimal_chars(n / 10).push(digit_char(n % 10))
    }
}

/// The text of one decimal digit.
fn digit_str(d: u64) -> (r: &'static str)
    requires
        d < 10,
    ensures
        r@ == seq![digit_char(d as nat)],
{
    proof {
        reveal_strlit("0");
        reveal_strlit("1");
        reveal_strlit("2");
        reveal_strlit("3");
        reveal_strlit("4");
        reveal_strlit("5");
        reveal_strlit("6");
        reveal_strlit("7");
        reveal_strlit("8");
        reveal_strlit("9");
    }
    if d == 0 {
        "0"
    } else if d == 1 {
        "1"
    } else if d == 2 {
        "2"
    } else if d == 3 {
        "3"
    } else if d == 4 {
        "4"
    } else if d == 5 {
        "5"
    } else if d == 6 {
        "6"
    } else if d == 7 {
        "7"
    } else if d == 8 {
        "8"
    } else {
        "9"
    }
}

/// A number in decimal, without leading zeros or sign.
pub fn u64_to_string(n: u64) -> (r: String)
    ensures
        r@ == decimal_chars(n as nat),
    decreases n,
{
    if n < 10 {
        String::from_str(digit_str(n))
    } else {
        let mut s = u64_to_string(n / 10);
        s.append(digit_str(n % 10));
        s
    }
}

/// A number in decimal, without leading zeros or sign.
pub fn usize_to_string(n: usize) -> (r: String)
    ensures
        r@ == decimal_chars(n as nat),
{
    u64_to_string(n as u64)
}

/// The text `Debug` gives a string: the string in double quotes, its special characters
/// escaped.
pub uninterp spec fn debug_quoted(s: Seq<char>) -> Seq<char>;

/// A character that `Debug` writes as itself inside a string: a printable ASCII character other
/// than a quote or a backslash.
pub open spec fn plain_debug_char(c: char) -> bool {
    0x20 <= (c as u32) <= 0x7e && c != '"' && c != '\'' && c != '\\'
}

/// Formats a string with `Debug` (`format!` with `{:?}`). The result is named; the contract
/// states it only for strings of plain characters, which come back between double quotes. How
/// other characters are escaped is left unsaid.
#[verifier::external_body]
pub fn debug_str(s: &str) -> (r: String)
    ensures
        r@ == debug_quoted(s@),
        (forall|i: int| 0 <= i < s@.len() ==> plain_debug_char(#[trigger] s@[i])) ==> r@ == seq!['"'] + s@ + seq!['"'],
{
    format!("{:?}", s)
}

} // verus!
