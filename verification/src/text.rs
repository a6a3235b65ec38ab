//! Decimal numbers, and the `host:port` form of an address.

use vstd::prelude::*;

verus! {

/// The decimal digit of a number below ten.
pub open spec fn digit(d: nat) -> char {
    ('0' as nat + d) as char
}

/// The decimal form of a number, without leading zeros.
pub open spec fn decimal(n: nat) -> Seq<char>
    decreases n,
{
    if n < 10 {
        seq![digit(n)]
    } else {
        decimal(n / 10).push(digit(n % 10))
    }
}

/// A host, a colon and a port in decimal.
pub open spec fn host_and_port(host: Seq<char>, port: u16) -> Seq<char> {
    host.push(':') + decimal(port as nat)
}

fn digit_text(d: u64) -> (text: &'static str)
    requires
        d < 10,
    ensures
        text@ == seq![digit(d as nat)],
{
    proof {
        reveal_strlit("0");
        reveal_strlit("1");
        reveal_strlit("2");
        reveal_strlit("3");
        reveal_strlit("4");
        reveal_strlit("5");
        reveal_strlit("6");
        reveal_strlit("7");
        reveal_strlit("8");
        reveal_strlit("9");
    }
    match d {
        0 => "0",
        1 => "1",
        2 => "2",
        3 => "3",
        4 => "4",
        5 => "5",
        6 => "6",
        7 => "7",
        8 => "8",
        _ => "9",
    }
}

/// Appends a number in decimal.
fn push_decimal(text: &mut String, n: u64)
    ensures
        final(text)@ == old(text)@ + decimal(n as nat),
    decreases n,
{
    if n >= 10 {
        push_decimal(text, n / 10);
    }
    text.append(digit_text(n % 10));
}

/// The text of a socket address: `host:port`.
pub fn socket_text(host: &String, port: u16) -> (text: String)
    ensures
        text@ == host_and_port(host@, port),
{
    proof {
        reveal_strlit(":");
    }
    let mut text: String = host.clone();
    text.append(":");
    push_decimal(&mut text, port as u64);
    text
}

proof fn lemma_digit(d: nat)
    requires
        d < 10,
    ensures
        digit(d) != ':',
        digit(d) as nat == '0' as nat + d,
{
}

proof fn lemma_decimal_digits(n: nat)
    ensures
        decimal(n).len() > 0,
        forall|i: int| 0 <= i < decimal(n).len() ==> decimal(n)[i] != ':',
    decreases n,
{
    lemma_digit(n % 10);
    if n >= 10 {
        lemma_decimal_digits(n / 10);
    } else {
        lemma_digit(n);
    }
}

/// Different numbers have different decimal forms.
pub proof fn decimal_is_injective(m: nat, n: nat)
    requires
        decimal(m) == decimal(n),
    ensures
        m == n,
    decreases m,
{
    lemma_decimal_digits(m / 10);
    lemma_decimal_digits(n / 10);
    lemma_digit(m % 10);
    lemma_digit(n % 10);
    assert(decimal(m).last() == digit(m % 10));
    assert(decimal(n).last() == digit(n % 10));
    if m >= 10 && n >= 10 {
        assert(decimal(m).drop_last() == decimal(m / 10));
        assert(decimal(n).drop_last() == decimal(n / 10));
        decimal_is_injective(m / 10, n / 10);
    }
}

/// The text of a socket address determines its host and its port, whatever
/// colons the host itself holds.
pub proof fn host_and_port_is_injective(host: Seq<char>, port: u16, host2: Seq<char>, port2: u16)
    requires
        host_and_port(host, port) == host_and_port(host2, port2),
    ensures
        host == host2,
        port == port2,
{
    let text = host_and_port(host, port);
    let digits = decimal(port as nat);
    let digits2 = decimal(port2 as nat);
    lemma_decimal_digits(port as nat);
    lemma_decimal_digits(port2 as nat);
    assert(text[host.len() as int] == ':');
    assert(text[host2.len() as int] == ':');
    assert(text.len() == host.len() + 1 + digits.len());
    assert(text.len() == host2.len() + 1 + digits2.len());
    if host.len() < host2.len() {
        let i = host2.len() - host.len() - 1;
        assert(text[host.push(':').len() + i] == digits[i]);
    }
    if host2.len() < host.len() {
        let i = host.len() - host2.len() - 1;
        assert(text[host2.push(':').len() + i] == digits2[i]);
    }
    assert(host == text.take(host.len() as int));
    assert(host2 == text.take(host.len() as int));
    assert(digits == text.skip(host.len() as int + 1));
    assert(digits2 == text.skip(host.len() as int + 1));
    decimal_is_injective(port as nat, port2 as nat);
}

/// The last digit is the remainder by ten, and the digits before it are those of
/// the quotient; a number below ten is one digit.
pub proof fn digits_are_quotient_and_remainder(n: nat)
    ensures
        decimal(n).len() > 0,
        decimal(n).last() as nat == '0' as nat + n % 10,
        n < 10 ==> decimal(n).len() == 1,
        n >= 10 ==> decimal(n).drop_last() == decimal(n / 10),
{
    lemma_digit(n % 10);
    if n >= 10 {
        assert(decimal(n).drop_last() =~= decimal(n / 10));
    }
}

/// The text of a socket address is the host as it is, one colon, and the digits
/// of the port.
pub proof fn host_colon_port(host: Seq<char>, port: u16)
    ensures
        host_and_port(host, port).len() == host.len() + 1 + decimal(port as nat).len(),
        host_and_port(host, port).take(host.len() as int) == host,
        host_and_port(host, port)[host.len() as int] == ':',
        host_and_port(host, port).skip(host.len() as int + 1) == decimal(port as nat),
{
    let text = host_and_port(host, port);
    assert(text.take(host.len() as int) =~= host);
    assert(text.skip(host.len() as int + 1) =~= decimal(port as nat));
}

} // verus!
