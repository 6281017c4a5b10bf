//! Deterministic ticket ids: `game_id + "." + ticket_type + "." + index`,
//! with the reservation index rendered in decimal.

use vstd::prelude::*;

verus! {

/// The decimal digit character for `d`.
pub open spec fn digit_char(d: int) -> char {
    if d == 0 {
        '0'
    } else if d == 1 {
        '1'
    } else if d == 2 {
        '2'
    } else if d == 3 {
        '3'
    } else if d == 4 {
        '4'
    } else if d == 5 {
        '5'
    } else if d == 6 {
        '6'
    } else if d == 7 {
        '7'
    } else if d == 8 {
        '8'
    } else {
        '9'
    }
}

/// The decimal rendering of `n`, most significant digit first.
pub open spec fn spec_decimal(n: nat) -> Seq<char>
    decreases n,
{
    if n < 10 {
        seq![digit_char(n as int)]
    } else {
        spec_decimal(n / 10).push(digit_char((n % 10) as int))
    }
}

/// The id of the ticket reserved at `idx` for `(game_id, ticket_type)`.
pub open spec fn spec_ticket_id(game_id: Seq<char>, ticket_type: Seq<char>, idx: nat) -> Seq<char> {
    game_id + seq!['.'] + ticket_type + seq!['.'] + spec_decimal(idx)
}

fn digit_str(d: u64) -> (r: &'static str)
    requires
        d < 10,
    ensures
        r@ == seq![digit_char(d as int)],
{
    proof {
        reveal_strlit("0");
        reveal_strlit("1");
        reveal_strlit("2");
        reveal_strlit("3");
        reveal_strlit("4");
        reveal_strlit("5");
        reveal_strlit("6");
        reveal_strlit("7");
        reveal_strlit("8");
        reveal_strlit("9");
    }
    if d == 0 {
        "0"
    } else if d == 1 {
        "1"
    } else if d == 2 {
        "2"
    } else if d == 3 {
        "3"
    } else if d == 4 {
        "4"
    } else if d == 5 {
        "5"
    } else if d == 6 {
        "6"
    } else if d == 7 {
        "7"
    } else if d == 8 {
        "8"
    } else {
        "9"
    }
}

/// Renders `n` in decimal.
pub fn decimal_string(n: u64) -> (r: String)
    ensures
        r@ == spec_decimal(n as nat),
    decreases n,
{
    if n < 10 {
        String::from_str(digit_str(n))
    } else {
        let mut s = decimal_string(n / 10);
        s.append(digit_str(n % 10));
        proof {
            assert(s@ =~= spec_decimal(n as nat));
        }
        s
    }
}

/// Builds the deterministic ticket id for one reservation.
pub fn make_ticket_id(game_id: &String, ticket_type: &String, idx: u64) -> (r: String)
    ensures
        r@ == spec_ticket_id(game_id@, ticket_type@, idx as nat),
{
    proof {
        reveal_strlit(".");
    }
    let mut s = game_id.clone();
    s.append(".");
    s.append(ticket_type.as_str());
    s.append(".");
    let d = decimal_string(idx);
    s.append(d.as_str());
    proof {
        assert(s@ =~= spec_ticket_id(game_id@, ticket_type@, idx as nat));
    }
    s
}

} // verus!
