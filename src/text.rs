use vstd::prelude::*;
use vstd::string::*;

verus! {

/// The decimal digit character for `d`, which is below ten.
pub open spec fn digit_char(d: nat) -> char {
    if d == 0 {
        '0'
    } else if d == 1 {
        '1'
    } else if d == 2 {
        '2'
    } else if d == 3 {
        '3'
    } else if d == 4 {
        '4'
    } else if d == 5 {
        '5'
    } else if d == 6 {
        '6'
    } else if d == 7 {
        '7'
    } else if d == 8 {
        '8'
    } else {
        '9'
    }
}

/// `n` written in base ten, without sign or leading zeros.
pub open spec fn decimal_of(n: nat) -> Seq<char>
    decreases n,
{
    if n < 10 {
        seq![digit_char(n)]
    } else {
        decimal_of(n / 10).push(digit_char(n % 10))
    }
}

/// The text `greet` answers with: `Hello, <name>! <msg>`.
pub open spec fn greeting_of(name: Seq<char>, msg: Seq<char>) -> Seq<char> {
    seq!['H', 'e', 'l', 'l', 'o', ',', ' '] + name + seq!['!', ' '] + msg
}

fn digit_str(d: u64) -> (r: &'static str)
    requires
        d < 10,
    ensures
        r@ == seq![digit_char(d as nat)],
{
    proof {
        reveal_strlit("0");
        reveal_strlit("1");
        reveal_strlit("2");
        reveal_strlit("3");
        reveal_strlit("4");
        reveal_strlit("5");
        reveal_strlit("6");
        reveal_strlit("7");
        reveal_strlit("8");
        reveal_strlit("9");
    }
    if d == 0 {
        "0"
    } else if d == 1 {
        "1"
    } else if d == 2 {
        "2"
    } else if d == 3 {
        "3"
    } else if d == 4 {
        "4"
    } else if d == 5 {
        "5"
    } else if d == 6 {
        "6"
    } else if d == 7 {
        "7"
    } else if d == 8 {
        "8"
    } else {
        "9"
    }
}

/// Appends `n` in base ten to `s`.
pub fn push_decimal(s: &mut String, n: u64)
    ensures
        final(s)@ == old(s)@ + decimal_of(n as nat),
    decreases n,
{
    if n >= 10 {
        push_decimal(s, n / 10);
        assert(s@ == old(s)@ + decimal_of((n / 10) as nat));
    }
    s.append(digit_str(n % 10));
    assert(decimal_of(n as nat) == if n < 10 {
        seq![digit_char(n as nat)]
    } else {
        decimal_of((n / 10) as nat).push(digit_char((n % 10) as nat))
    });
    if n >= 10 {
        assert(s@ =~= old(s)@ + decimal_of(n as nat));
    } else {
        assert(s@ =~= old(s)@ + decimal_of(n as nat));
    }
}

/// The reply of the greeting query: always `Ok`, holding
/// `Hello, <name>! <msg>`.
pub fn greet(name: String, msg: String) -> (r: Result<String, String>)
    ensures
        r matches Ok(t) && t@ == greeting_of(name@, msg@),
{
    let mut t = String::from_str("Hello, ");
    t.append(name.as_str());
    t.append("! ");
    t.append(msg.as_str());
    proof {
        reveal_strlit("Hello, ");
        reveal_strlit("! ");
        assert(t@ =~= greeting_of(name@, msg@));
    }
    Ok(t)
}

} // verus!
