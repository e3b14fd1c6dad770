//! The lines with which the registry announces arrivals and departures.

use vstd::prelude::*;
use vstd::string::*;

verus! {

/// The character that writes the digit `d`, for `d` below ten.
pub open spec fn digit(d: nat) -> char {
    if d == 0 {
        '0'
    } else if d == 1 {
        '1'
    } else if d == 2 {
        '2'
    } else if d == 3 {
        '3'
    } else if d == 4 {
        '4'
    } else if d == 5 {
        '5'
    } else if d == 6 {
        '6'
    } else if d == 7 {
        '7'
    } else if d == 8 {
        '8'
    } else {
        '9'
    }
}

/// The decimal numeral of `n`: no sign, no leading zero, "0" for zero.
pub open spec fn decimal(n: nat) -> Seq<char>
    decreases n,
{
    if n < 10 {
        seq![digit(n)]
    } else {
        decimal(n / 10).push(digit(n % 10))
    }
}

/// The name under which the registry itself speaks to a room.
pub open spec fn server_name() -> Seq<char> {
    "Server"@
}

/// The line that tells a room of a newcomer and of its size from now on.
pub open spec fn join_text(id: Seq<char>, count: nat) -> Seq<char> {
    "User "@ + id + " has join the room ... Number of connected users: "@ + decimal(count)
}

/// The line that tells a room that an occupant left, and how many remain.
pub open spec fn leave_text(id: Seq<char>, count: nat) -> Seq<char> {
    id + " disconnected ... Number of connected users: "@ + decimal(count)
}

fn digit_str(d: usize) -> (r: &'static str)
    requires
        d < 10,
    ensures
        r@ == seq![digit(d as nat)],
{
    proof {
        reveal_strlit("0");
        reveal_strlit("1");
        reveal_strlit("2");
        reveal_strlit("3");
        reveal_strlit("4");
        reveal_strlit("5");
        reveal_strlit("6");
        reveal_strlit("7");
        reveal_strlit("8");
        reveal_strlit("9");
    }
    let r = if d == 0 {
        "0"
    } else if d == 1 {
        "1"
    } else if d == 2 {
        "2"
    } else if d == 3 {
        "3"
    } else if d == 4 {
        "4"
    } else if d == 5 {
        "5"
    } else if d == 6 {
        "6"
    } else if d == 7 {
        "7"
    } else if d == 8 {
        "8"
    } else {
        "9"
    };
    assert(r@ =~= seq![digit(d as nat)]);
    r
}

/// Writes `n` in decimal.
pub fn render_count(n: usize) -> (r: String)
    ensures
        r@ == decimal(n as nat),
    decreases n,
{
    if n < 10 {
        String::from_str(digit_str(n))
    } else {
        let mut r = render_count(n / 10);
        r.append(digit_str(n % 10));
        assert(r@ =~= decimal(n as nat));
        r
    }
}

/// The sender of the registry's own announcements.
pub fn server_id() -> (r: String)
    ensures
        r@ == server_name(),
{
    String::from_str("Server")
}

/// Builds the announcement of a newcomer `id` to a room that now holds
/// `count` connections.
pub fn join_announcement(id: &String, count: usize) -> (r: String)
    ensures
        r@ == join_text(id@, count as nat),
{
    let mut r = String::from_str("User ");
    r.append(id.as_str());
    r.append(" has join the room ... Number of connected users: ");
    let n = render_count(count);
    r.append(n.as_str());
    r
}

/// Builds the announcement that `id` left a room in which `count`
/// connections remain.
pub fn leave_announcement(id: &String, count: usize) -> (r: String)
    ensures
        r@ == leave_text(id@, count as nat),
{
    let mut r = id.clone();
    r.append(" disconnected ... Number of connected users: ");
    let n = render_count(count);
    r.append(n.as_str());
    r
}

} // verus!
