//! The names of generated items.
use vstd::prelude::*;

verus! {

/// How many underscores a name starts with, counted from character `i` on.
pub open spec fn underscores(name: Seq<char>, i: int) -> int
    decreases name.len() - i,
{
    if 0 <= i < name.len() && name[i] == '_' {
        1 + underscores(name, i + 1)
    } else {
        0
    }
}

/// A name with a prefix and a suffix; its leading underscores move in front of the prefix.
pub open spec fn prefixed(prefix: Seq<char>, name: Seq<char>, suffix: Seq<char>) -> Seq<char> {
    let n = underscores(name, 0);
    name.take(n) + prefix + name.skip(n) + suffix
}

/// Formats a prefixed and suffixed identifier, moving leading underscores before the prefix:
/// `_unused` with the prefix `set_` gives `_set_unused`.
pub fn prefixed_name(prefix: &str, name: &str, suffix: &str) -> (r: String)
    ensures
        r@ == prefixed(prefix@, name@, suffix@),
{
    let count = name.unicode_len();
    let mut n: usize = 0;
    while n < count && name.get_char(n) == '_'
        invariant
            n <= count,
            count == name@.len(),
            underscores(name@, 0) == n + underscores(name@, n as int),
        decreases count - n,
    {
        n += 1;
    }
    let head = name.substring_char(0, n);
    let tail = name.substring_char(n, count);
    assert(head@ =~= name@.take(n as int));
    assert(tail@ =~= name@.skip(n as int));
    head.to_owned().concat(prefix).concat(tail).concat(suffix)
}

/// The decimal digit `d`.
pub open spec fn digit(d: nat) -> Seq<char> {
    if d == 0 {
        "0"@
    } else if d == 1 {
        "1"@
    } else if d == 2 {
        "2"@
    } else if d == 3 {
        "3"@
    } else if d == 4 {
        "4"@
    } else if d == 5 {
        "5"@
    } else if d == 6 {
        "6"@
    } else if d == 7 {
        "7"@
    } else if d == 8 {
        "8"@
    } else {
        "9"@
    }
}

/// A number in decimal.
pub open spec fn decimal(n: nat) -> Seq<char>
    decreases n,
{
    if n < 10 {
        digit(n)
    } else {
        decimal(n / 10) + digit(n % 10)
    }
}

fn digit_text(d: usize) -> (r: &'static str)
    requires
        d < 10,
    ensures
        r@ == digit(d as nat),
{
    if d == 0 {
        "0"
    } else if d == 1 {
        "1"
    } else if d == 2 {
        "2"
    } else if d == 3 {
        "3"
    } else if d == 4 {
        "4"
    } else if d == 5 {
        "5"
    } else if d == 6 {
        "6"
    } else if d == 7 {
        "7"
    } else if d == 8 {
        "8"
    } else {
        "9"
    }
}

/// A number in decimal.
pub fn decimal_text(n: usize) -> (r: String)
    ensures
        r@ == decimal(n as nat),
    decreases n,
{
    if n < 10 {
        digit_text(n).to_owned()
    } else {
        decimal_text(n / 10).concat(digit_text(n % 10))
    }
}

proof fn digit_is_one_char(d: nat)
    ensures
        digit(d).len() == 1,
{
    reveal_strlit("0");
    reveal_strlit("1");
    reveal_strlit("2");
    reveal_strlit("3");
    reveal_strlit("4");
    reveal_strlit("5");
    reveal_strlit("6");
    reveal_strlit("7");
    reveal_strlit("8");
    reveal_strlit("9");
}

proof fn digits_differ(a: nat, b: nat)
    requires
        a < 10,
        b < 10,
        digit(a)[0] == digit(b)[0],
    ensures
        a == b,
{
    reveal_strlit("0");
    reveal_strlit("1");
    reveal_strlit("2");
    reveal_strlit("3");
    reveal_strlit("4");
    reveal_strlit("5");
    reveal_strlit("6");
    reveal_strlit("7");
    reveal_strlit("8");
    reveal_strlit("9");
}

proof fn decimal_ends_in_digit(n: nat)
    ensures
        decimal(n).len() >= 1,
        n >= 10 ==> decimal(n).len() >= 2,
        n < 10 ==> decimal(n).len() == 1,
        decimal(n).last() == digit(n % 10)[0],
        n >= 10 ==> decimal(n).drop_last() == decimal(n / 10),
    decreases n,
{
    digit_is_one_char(n % 10);
    if n >= 10 {
        decimal_ends_in_digit(n / 10);
        assert(decimal(n).drop_last() =~= decimal(n / 10));
    }
}

/// Different numbers are written differently.
pub proof fn decimals_differ(a: nat, b: nat)
    requires
        decimal(a) == decimal(b),
    ensures
        a == b,
    decreases a,
{
    decimal_ends_in_digit(a);
    decimal_ends_in_digit(b);
    digits_differ(a % 10, b % 10);
    if a >= 10 && b >= 10 {
        decimals_differ(a / 10, b / 10);
    }
}

} // verus!
