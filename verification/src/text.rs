//! The wording of the statuses that the pool makes up itself.

use vstd::prelude::*;

verus! {

/// The character of one decimal digit.
pub open spec fn digit(d: nat) -> char {
    if d == 0 {
        '0'
    } else if d == 1 {
        '1'
    } else if d == 2 {
        '2'
    } else if d == 3 {
        '3'
    } else if d == 4 {
        '4'
    } else if d == 5 {
        '5'
    } else if d == 6 {
        '6'
    } else if d == 7 {
        '7'
    } else if d == 8 {
        '8'
    } else {
        '9'
    }
}

/// A number in decimal, most significant digit first, without leading zeros.
pub open spec fn decimal(n: nat) -> Seq<char>
    decreases n,
{
    if n < 10 {
        seq![digit(n)]
    } else {
        decimal(n / 10).push(digit(n % 10))
    }
}

fn digit_str(d: u128) -> (s: &'static str)
    requires
        d < 10,
    ensures
        s@ == seq![digit(d as nat)],
{
    proof {
        reveal_strlit("0");
        reveal_strlit("1");
        reveal_strlit("2");
        reveal_strlit("3");
        reveal_strlit("4");
        reveal_strlit("5");
        reveal_strlit("6");
        reveal_strlit("7");
        reveal_strlit("8");
        reveal_strlit("9");
    }
    let s = if d == 0 {
        "0"
    } else if d == 1 {
        "1"
    } else if d == 2 {
        "2"
    } else if d == 3 {
        "3"
    } else if d == 4 {
        "4"
    } else if d == 5 {
        "5"
    } else if d == 6 {
        "6"
    } else if d == 7 {
        "7"
    } else if d == 8 {
        "8"
    } else {
        "9"
    };
    assert(s@ =~= seq![digit(d as nat)]);
    s
}

/// Writes `n` in decimal.
pub fn decimal_string(n: u128) -> (s: String)
    ensures
        s@ == decimal(n as nat),
    decreases n,
{
    if n < 10 {
        String::from_str(digit_str(n))
    } else {
        let mut s = decimal_string(n / 10);
        s.append(digit_str(n % 10));
        assert(s@ =~= decimal((n / 10) as nat).push(digit((n % 10) as nat)));
        s
    }
}

/// What a caller is told when the pool for a peer went away under its request.
pub open spec fn peer_unavailable_text(address: Seq<char>) -> Seq<char> {
    "Peer "@ + address + " is not available"@
}

/// What a caller is told when no connection to a peer could be made.
pub open spec fn connect_failed_text(address: Seq<char>, error: Seq<char>) -> Seq<char> {
    "Failed to connect to "@ + address + ", error: "@ + error
}

/// What a caller is told when a request outlasted its whole time budget.
pub open spec fn timeout_text(millis: nat, address: Seq<char>) -> Seq<char> {
    "Timeout "@ + decimal(millis) + "ms reached for uri: "@ + address
}

/// What a caller is told when a health check got no answer in time.
pub open spec fn health_check_timeout_text(millis: nat) -> Seq<char> {
    "Healthcheck timeout "@ + decimal(millis) + "ms exceeded"@
}

/// Writes [`peer_unavailable_text`].
pub fn peer_unavailable_message(address: &String) -> (message: String)
    ensures
        message@ == peer_unavailable_text(address@),
{
    let mut message = String::from_str("Peer ");
    message.append(address.as_str());
    message.append(" is not available");
    message
}

/// Writes [`connect_failed_text`].
pub fn connect_failed_message(address: &String, error: &String) -> (message: String)
    ensures
        message@ == connect_failed_text(address@, error@),
{
    let mut message = String::from_str("Failed to connect to ");
    message.append(address.as_str());
    message.append(", error: ");
    message.append(error.as_str());
    message
}

/// Writes [`timeout_text`].
pub fn timeout_message(millis: u128, address: &String) -> (message: String)
    ensures
        message@ == timeout_text(millis as nat, address@),
{
    let mut message = String::from_str("Timeout ");
    let number = decimal_string(millis);
    message.append(number.as_str());
    message.append("ms reached for uri: ");
    message.append(address.as_str());
    message
}

/// Writes [`health_check_timeout_text`].
pub fn health_check_timeout_message(millis: u128) -> (message: String)
    ensures
        message@ == health_check_timeout_text(millis as nat),
{
    let mut message = String::from_str("Healthcheck timeout ");
    let number = decimal_string(millis);
    message.append(number.as_str());
    message.append("ms exceeded");
    message
}

} // verus!
