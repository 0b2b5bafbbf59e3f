//! The texts the OSD shows: "Desktop N" for the current desktop and "P%" for
//! the entries of its opacity menu.

use vstd::prelude::*;
use vstd::string::*;

verus! {

/// The character of a decimal digit.
pub open spec fn digit_char(d: nat) -> char
    recommends
        d < 10,
{
    if d == 0 { '0' }
    else if d == 1 { '1' }
    else if d == 2 { '2' }
    else if d == 3 { '3' }
    else if d == 4 { '4' }
    else if d == 5 { '5' }
    else if d == 6 { '6' }
    else if d == 7 { '7' }
    else if d == 8 { '8' }
    else { '9' }
}

/// The decimal notation of `n`, most significant digit first, without leading zeros.
pub open spec fn decimal(n: nat) -> Seq<char>
    decreases n,
{
    if n < 10 {
        seq![digit_char(n)]
    } else {
        decimal(n / 10).push(digit_char(n % 10))
    }
}

/// The OSD text for desktop number `n` (counted from 1).
pub open spec fn desktop_text(n: nat) -> Seq<char> {
    seq!['D', 'e', 's', 'k', 't', 'o', 'p', ' '] + decimal(n)
}

/// The menu label of an opacity given in percent.
pub open spec fn percentage_text(p: nat) -> Seq<char> {
    decimal(p).push('%')
}

/// Appends the decimal digit `d` to `s`.
fn push_digit(s: &mut String, d: u32)
    requires
        d < 10,
    ensures
        final(s)@ == old(s)@.push(digit_char(d as nat)),
{
    let t: &str = if d == 0 {
        "0"
    } else if d == 1 {
        "1"
    } else if d == 2 {
        "2"
    } else if d == 3 {
        "3"
    } else if d == 4 {
        "4"
    } else if d == 5 {
        "5"
    } else if d == 6 {
        "6"
    } else if d == 7 {
        "7"
    } else if d == 8 {
        "8"
    } else {
        "9"
    };
    proof {
        reveal_strlit("0");
        reveal_strlit("1");
        reveal_strlit("2");
        reveal_strlit("3");
        reveal_strlit("4");
        reveal_strlit("5");
        reveal_strlit("6");
        reveal_strlit("7");
        reveal_strlit("8");
        reveal_strlit("9");
    }
    s.append(t);
}

/// Appends the decimal notation of `n` to `s`.
fn push_decimal(s: &mut String, n: u32)
    ensures
        final(s)@ == old(s)@ + decimal(n as nat),
    decreases n,
{
    if n < 10 {
        push_digit(s, n);
    } else {
        push_decimal(s, n / 10);
        push_digit(s, n % 10);
    }
}

/// The decimal notation of `n`.
pub fn decimal_string(n: u32) -> (r: String)
    ensures
        r@ == decimal(n as nat),
{
    let mut s = String::new();
    push_decimal(&mut s, n);
    s
}

/// The text the OSD shows while desktop number `n` (counted from 1) is current,
/// such as "Desktop 3".
pub fn desktop_label(n: u32) -> (r: String)
    ensures
        r@ == desktop_text(n as nat),
{
    let mut s = String::from_str("Desktop ");
    proof {
        reveal_strlit("Desktop ");
    }
    push_decimal(&mut s, n);
    s
}

/// The text the OSD shows when the program starts: that of the first desktop.
pub fn initial_osd_text() -> (r: String)
    ensures
        r@ == desktop_text(1),
{
    desktop_label(1)
}

/// The label of the opacity menu entry for `percentage` percent, such as "40%".
pub fn percentage_label(percentage: u32) -> (r: String)
    ensures
        r@ == percentage_text(percentage as nat),
{
    let mut s = decimal_string(percentage);
    proof {
        reveal_strlit("%");
    }
    s.append("%");
    s
}

/// The number a sequence of decimal digit characters denotes.
pub open spec fn decimal_value(s: Seq<char>) -> int
    decreases s.len(),
{
    if s.len() == 0 {
        0
    } else {
        10 * decimal_value(s.drop_last()) + (s.last() as int - '0' as int)
    }
}

proof fn lemma_digit_char_value(d: nat)
    requires
        d < 10,
    ensures
        digit_char(d) as int - '0' as int == d,
        '0' <= digit_char(d) <= '9',
{
    assert('0' as int == 48);
    assert('1' as int == 49);
    assert('2' as int == 50);
    assert('3' as int == 51);
    assert('4' as int == 52);
    assert('5' as int == 53);
    assert('6' as int == 54);
    assert('7' as int == 55);
    assert('8' as int == 56);
    assert('9' as int == 57);
}

/// The decimal notation of `n` consists of the digit characters '0' ..= '9',
/// denotes `n`, and starts with '0' only when it is "0" itself.
pub proof fn lemma_decimal_denotes(n: nat)
    ensures
        decimal(n).len() >= 1,
        forall|i: int| 0 <= i < decimal(n).len() ==> '0' <= #[trigger] decimal(n)[i] <= '9',
        decimal_value(decimal(n)) == n,
        decimal(n)[0] == '0' ==> decimal(n).len() == 1,
    decreases n,
{
    lemma_decimal_len_pos(n);
    lemma_decimal_first(n);
    lemma_digit_char_value(n % 10);
    if n < 10 {
        assert(decimal(n).drop_last() =~= Seq::<char>::empty());
        assert(decimal_value(decimal(n)) == 10 * decimal_value(Seq::<char>::empty()) + (digit_char(n) as int - '0' as int));
    } else {
        lemma_decimal_denotes(n / 10);
        let d = decimal(n);
        assert(d.drop_last() =~= decimal(n / 10));
        assert(d.last() == digit_char(n % 10));
        assert(decimal_value(d) == 10 * decimal_value(decimal(n / 10)) + (digit_char(n % 10) as int - '0' as int));
        assert(n == 10 * (n / 10) + n % 10);
        assert forall|i: int| 0 <= i < d.len() implies '0' <= #[trigger] d[i] <= '9' by {
            if i < d.len() - 1 {
                assert(d[i] == decimal(n / 10)[i]);
            }
        }
    }
}

/// The text shown for desktop `n` is "Desktop " followed by digits that denote `n`.
pub proof fn lemma_desktop_text_names_desktop(n: nat)
    ensures
        desktop_text(n).len() > 8,
        desktop_text(n).subrange(0, 8) == seq!['D', 'e', 's', 'k', 't', 'o', 'p', ' '],
        decimal_value(desktop_text(n).subrange(8, desktop_text(n).len() as int)) == n,
{
    lemma_decimal_denotes(n);
    assert(desktop_text(n).subrange(0, 8) =~= seq!['D', 'e', 's', 'k', 't', 'o', 'p', ' ']);
    assert(desktop_text(n).subrange(8, desktop_text(n).len() as int) =~= decimal(n));
}

/// The label of `p` percent is digits that denote `p`, followed by '%'.
pub proof fn lemma_percentage_text_names_percentage(p: nat)
    ensures
        percentage_text(p).last() == '%',
        decimal_value(percentage_text(p).drop_last()) == p,
{
    lemma_decimal_denotes(p);
    assert(percentage_text(p).drop_last() =~= decimal(p));
}

/// No two desktops share an OSD text, so the text always tells which desktop is current.
pub proof fn lemma_desktop_text_injective(m: nat, n: nat)
    requires
        desktop_text(m) == desktop_text(n),
    ensures
        m == n,
{
    assert(decimal(m) =~= desktop_text(m).subrange(8, desktop_text(m).len() as int));
    assert(decimal(n) =~= desktop_text(n).subrange(8, desktop_text(n).len() as int));
    lemma_decimal_injective(m, n);
}

proof fn lemma_decimal_len_pos(n: nat)
    ensures
        decimal(n).len() >= 1,
    decreases n,
{
    if n >= 10 {
        lemma_decimal_len_pos(n / 10);
    }
}

proof fn lemma_digit_char_injective(a: nat, b: nat)
    requires
        a < 10,
        b < 10,
        digit_char(a) == digit_char(b),
    ensures
        a == b,
{
}

/// A number written in decimal has a leading digit other than '0', unless it is 0 itself.
proof fn lemma_decimal_first(n: nat)
    ensures
        (n == 0) <==> (decimal(n)[0] == '0'),
        n < 10 <==> decimal(n).len() == 1,
    decreases n,
{
    lemma_decimal_len_pos(n);
    if n >= 10 {
        lemma_decimal_first(n / 10);
        lemma_decimal_len_pos(n / 10);
        assert(decimal(n)[0] == decimal(n / 10)[0]);
    }
}

/// Different numbers have different decimal notations.
pub proof fn lemma_decimal_injective(m: nat, n: nat)
    requires
        decimal(m) == decimal(n),
    ensures
        m == n,
    decreases m,
{
    lemma_decimal_first(m);
    lemma_decimal_first(n);
    if m < 10 {
        lemma_digit_char_injective(m, n);
    } else {
        let dm = decimal(m);
        assert(decimal(m / 10) =~= dm.drop_last());
        assert(decimal(n / 10) =~= decimal(n).drop_last());
        assert(digit_char(m % 10) == dm.last());
        assert(digit_char(n % 10) == decimal(n).last());
        lemma_digit_char_injective(m % 10, n % 10);
        lemma_decimal_injective(m / 10, n / 10);
    }
}

} // verus!
