use vstd::prelude::*;

verus! {

/// Why a `PORT` value is refused.
#[derive(Debug, Clone, Copy, PartialEq, Eq, Structural)]
pub enum PortError {
    /// The value is the empty string.
    Empty,
    /// After an optional leading `+`, the value is empty or holds a character
    /// that is not a decimal digit.
    InvalidDigit,
    /// The value is a decimal number above 65535.
    TooLarge,
}

/// The port used when `PORT` is not set.
pub const DEFAULT_PORT: u16 = 3000;

pub open spec fn is_digit(c: char) -> bool {
    '0' <= c && c <= '9'
}

pub open spec fn digit_value(c: char) -> nat {
    (c as int - '0' as int) as nat
}

pub open spec fn all_digits(d: Seq<char>) -> bool {
    forall|i: int| 0 <= i < d.len() ==> is_digit(#[trigger] d[i])
}

/// The number that a string of decimal digits denotes, most significant first.
pub open spec fn digits_value(d: Seq<char>) -> nat
    decreases d.len(),
{
    if d.len() == 0 {
        0
    } else {
        10 * digits_value(d.drop_last()) + digit_value(d.last())
    }
}

/// What is left of a port value once an optional leading `+` is taken off.
pub open spec fn unsigned_digits(s: Seq<char>) -> Seq<char> {
    if s.len() > 0 && s[0] == '+' {
        s.drop_first()
    } else {
        s
    }
}

/// A port value is an optional `+` followed by one or more decimal digits
/// whose number is at most 65535; leading zeros are allowed.
pub open spec fn parse_port_spec(s: Seq<char>) -> Result<u16, PortError> {
    let d = unsigned_digits(s);
    if s.len() == 0 {
        Err(PortError::Empty)
    } else if d.len() == 0 || !all_digits(d) {
        Err(PortError::InvalidDigit)
    } else if digits_value(d) > u16::MAX {
        Err(PortError::TooLarge)
    } else {
        Ok(digits_value(d) as u16)
    }
}

/// Parses a `PORT` value as an unsigned 16-bit decimal number.
pub fn parse_port(s: &str) -> (r: Result<u16, PortError>)
    ensures
        r == parse_port_spec(s@),
{
    let n = s.unicode_len();
    if n == 0 {
        return Err(PortError::Empty);
    }
    let start: usize = if s.get_char(0) == '+' { 1 } else { 0 };
    let ghost d = unsigned_digits(s@);
    assert(d =~= s@.subrange(start as int, n as int));
    if start == n {
        return Err(PortError::InvalidDigit);
    }
    let mut acc: u32 = 0;
    let mut over = false;
    let mut i: usize = start;
    while i < n
        invariant
            start <= i <= n,
            n == s@.len(),
            d == s@.subrange(start as int, n as int),
            d == unsigned_digits(s@),
            all_digits(d.take(i - start)),
            over == (digits_value(d.take(i - start)) > 65535),
            !over ==> acc == digits_value(d.take(i - start)),
        decreases n - i,
    {
        let c = s.get_char(i);
        assert(d[i - start] == c);
        if c < '0' || c > '9' {
            assert(!is_digit(d[i - start]));
            return Err(PortError::InvalidDigit);
        }
        let k: u32 = (c as u32) - ('0' as u32);
        let ghost prev = d.take(i - start);
        let ghost next = d.take(i - start + 1);
        assert(next.drop_last() =~= prev);
        assert(next.last() == c);
        assert(digits_value(next) == 10 * digits_value(prev) + k);
        if !over {
            acc = acc * 10 + k;
            if acc > 65535 {
                over = true;
            }
        }
        assert(all_digits(next));
        i = i + 1;
    }
    assert(d.take(n - start) =~= d);
    if over {
        Err(PortError::TooLarge)
    } else {
        Ok(acc as u16)
    }
}

/// The `PORT` value as the process sees it: `None` where it is not set.
pub open spec fn configured_port(var: Option<Seq<char>>) -> Result<u16, PortError> {
    match var {
        None => Ok(DEFAULT_PORT),
        Some(s) => parse_port_spec(s),
    }
}

pub open spec fn view_var(var: Option<&str>) -> Option<Seq<char>> {
    match var {
        None => None,
        Some(s) => Some(s@),
    }
}

/// Resolves the port to listen on from the value of `PORT`, if it is set.
pub fn configure_port(var: Option<&str>) -> (r: Result<u16, PortError>)
    ensures
        r == configured_port(view_var(var)),
{
    match var {
        None => Ok(DEFAULT_PORT),
        Some(s) => parse_port(s),
    }
}

pub open spec fn digit_char(k: nat) -> char {
    if k == 0 {
        '0'
    } else if k == 1 {
        '1'
    } else if k == 2 {
        '2'
    } else if k == 3 {
        '3'
    } else if k == 4 {
        '4'
    } else if k == 5 {
        '5'
    } else if k == 6 {
        '6'
    } else if k == 7 {
        '7'
    } else if k == 8 {
        '8'
    } else {
        '9'
    }
}

/// The decimal text of a number: no sign, no leading zeros.
pub open spec fn decimal(n: nat) -> Seq<char>
    decreases n,
{
    if n < 10 {
        seq![digit_char(n)]
    } else {
        decimal(n / 10).push(digit_char(n % 10))
    }
}

/// The host part of every listen address: all IPv4 interfaces.
pub open spec fn host_prefix() -> Seq<char> {
    seq!['0', '.', '0', '.', '0', '.', '0', ':']
}

/// The address that the service binds to for a port.
pub open spec fn address_of(port: u16) -> Seq<char> {
    host_prefix() + decimal(port as nat)
}

/// What startup does with the value of `PORT`: the address to bind to, or the
/// error that stops the process before anything is bound.
pub open spec fn startup_spec(var: Option<Seq<char>>) -> Result<Seq<char>, PortError> {
    match configured_port(var) {
        Ok(p) => Ok(address_of(p)),
        Err(e) => Err(e),
    }
}

fn push_digit(out: &mut String, k: u16)
    requires
        k < 10,
    ensures
        final(out)@ == old(out)@.push(digit_char(k as nat)),
{
    let text = if k == 0 {
        proof { reveal_strlit("0"); }
        "0"
    } else if k == 1 {
        proof { reveal_strlit("1"); }
        "1"
    } else if k == 2 {
        proof { reveal_strlit("2"); }
        "2"
    } else if k == 3 {
        proof { reveal_strlit("3"); }
        "3"
    } else if k == 4 {
        proof { reveal_strlit("4"); }
        "4"
    } else if k == 5 {
        proof { reveal_strlit("5"); }
        "5"
    } else if k == 6 {
        proof { reveal_strlit("6"); }
        "6"
    } else if k == 7 {
        proof { reveal_strlit("7"); }
        "7"
    } else if k == 8 {
        proof { reveal_strlit("8"); }
        "8"
    } else {
        proof { reveal_strlit("9"); }
        "9"
    };
    assert(text@ =~= seq![digit_char(k as nat)]);
    out.append(text);
    assert(final(out)@ =~= old(out)@.push(digit_char(k as nat)));
}

fn push_decimal(out: &mut String, n: u16)
    ensures
        final(out)@ == old(out)@ + decimal(n as nat),
    decreases n,
{
    if n >= 10 {
        push_decimal(out, n / 10);
    }
    push_digit(out, n % 10);
    if n >= 10 {
        assert(decimal(n as nat) == decimal((n / 10) as nat).push(digit_char((n % 10) as nat)));
    }
    assert(final(out)@ =~= old(out)@ + decimal(n as nat));
}

/// The address to bind to for a port: `0.0.0.0:` and the port in decimal.
pub fn bind_address(port: u16) -> (r: String)
    ensures
        r@ == address_of(port),
{
    let mut out = String::from_str("0.0.0.0:");
    proof { reveal_strlit("0.0.0.0:"); }
    assert(out@ =~= host_prefix());
    push_decimal(&mut out, port);
    out
}

/// Decides startup from the value of `PORT`: the address to bind to, or the
/// configuration error on which the process stops before binding.
pub fn startup_address(var: Option<&str>) -> (r: Result<String, PortError>)
    ensures
        r matches Ok(a) ==> startup_spec(view_var(var)) == Ok::<Seq<char>, PortError>(a@),
        r matches Err(e) ==> startup_spec(view_var(var)) == Err::<Seq<char>, PortError>(e),
{
    match configure_port(var) {
        Ok(p) => Ok(bind_address(p)),
        Err(e) => Err(e),
    }
}

proof fn lemma_decimal_digits(n: nat)
    ensures
        decimal(n).len() > 0,
        decimal(n)[0] != '+',
        all_digits(decimal(n)),
        digits_value(decimal(n)) == n,
    decreases n,
{
    let k = n % 10;
    assert(is_digit(digit_char(k)) && digit_value(digit_char(k)) == k);
    if n >= 10 {
        lemma_decimal_digits(n / 10);
        let d = decimal(n);
        assert(d.drop_last() =~= decimal(n / 10));
        assert(d.last() == digit_char(k));
        assert(n == 10 * (n / 10) + k);
        assert(digits_value(d) == 10 * digits_value(d.drop_last()) + digit_value(d.last()));
        assert(digits_value(d) == n);
        assert(d[0] == decimal(n / 10)[0]);
        assert forall|i: int| 0 <= i < d.len() implies is_digit(#[trigger] d[i]) by {
            if i < d.len() - 1 {
                assert(d[i] == decimal(n / 10)[i]);
            }
        }
    } else {
        assert(decimal(n).drop_last() =~= Seq::<char>::empty());
        assert(digits_value(decimal(n)) == 10 * digits_value(Seq::<char>::empty()) + digit_value(digit_char(k)));
    }
}

/// Every port written in decimal is accepted as that port, and the service
/// then binds to `0.0.0.0:` followed by the same text.
pub proof fn law_decimal_port_binds(n: u16)
    ensures
        configured_port(Some(decimal(n as nat))) == Ok::<u16, PortError>(n),
        startup_spec(Some(decimal(n as nat))) == Ok::<Seq<char>, PortError>(
            host_prefix() + decimal(n as nat),
        ),
{
    lemma_decimal_digits(n as nat);
}

/// Without `PORT` the service binds to `0.0.0.0:3000`.
pub proof fn law_unset_port_binds_default()
    ensures
        configured_port(None) == Ok::<u16, PortError>(3000),
        startup_spec(None) == Ok::<Seq<char>, PortError>(
            seq!['0', '.', '0', '.', '0', '.', '0', ':', '3', '0', '0', '0'],
        ),
{
    assert(decimal(3000) =~= seq!['3', '0', '0', '0']) by {
        reveal_with_fuel(decimal, 4);
    }
    assert(host_prefix() + decimal(3000) =~= seq![
        '0', '.', '0', '.', '0', '.', '0', ':', '3', '0', '0', '0',
    ]);
}

/// A `PORT` value that holds a character other than a decimal digit, leaving
/// aside one leading `+`, stops startup before any bind.
pub proof fn law_non_numeric_port_refused(s: Seq<char>, i: int)
    requires
        0 <= i < s.len(),
        !is_digit(s[i]),
        !(i == 0 && s[i] == '+'),
    ensures
        startup_spec(Some(s)) == Err::<Seq<char>, PortError>(PortError::InvalidDigit),
{
    let d = unsigned_digits(s);
    if s[0] == '+' {
        assert(d[i - 1] == s[i]);
    } else {
        assert(d[i] == s[i]);
    }
}

/// A `PORT` value that is a decimal number above 65535 stops startup before
/// any bind.
pub proof fn law_out_of_range_port_refused(s: Seq<char>)
    requires
        s.len() > 0,
        all_digits(s),
        digits_value(s) > 65535,
    ensures
        startup_spec(Some(s)) == Err::<Seq<char>, PortError>(PortError::TooLarge),
{
    assert(is_digit(s[0]));
}

} // verus!
