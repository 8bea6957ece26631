use vstd::prelude::*;
use vstd::string::*;

use crate::laws::{
    canonical_decimal, decimal_value, law_decimal_is_canonical, law_password_file_name_parts,
};

verus! {

/// The decimal digit character of `d` (for `d` below ten).
pub open spec fn digit_char(d: nat) -> char {
    if d == 0 {
        '0'
    } else if d == 1 {
        '1'
    } else if d == 2 {
        '2'
    } else if d == 3 {
        '3'
    } else if d == 4 {
        '4'
    } else if d == 5 {
        '5'
    } else if d == 6 {
        '6'
    } else if d == 7 {
        '7'
    } else if d == 8 {
        '8'
    } else {
        '9'
    }
}

/// The decimal text of `n`, with no leading zero.
pub open spec fn decimal(n: nat) -> Seq<char>
    decreases n,
{
    if n < 10 {
        seq![digit_char(n)]
    } else {
        decimal(n / 10).push(digit_char(n % 10))
    }
}

fn digit_text(d: u64) -> (s: &'static str)
    requires
        d < 10,
    ensures
        s@ == seq![digit_char(d as nat)],
{
    proof {
        reveal_strlit("0");
        reveal_strlit("1");
        reveal_strlit("2");
        reveal_strlit("3");
        reveal_strlit("4");
        reveal_strlit("5");
        reveal_strlit("6");
        reveal_strlit("7");
        reveal_strlit("8");
        reveal_strlit("9");
    }
    match d {
        0 => "0",
        1 => "1",
        2 => "2",
        3 => "3",
        4 => "4",
        5 => "5",
        6 => "6",
        7 => "7",
        8 => "8",
        _ => "9",
    }
}

/// The decimal text of `n`, as `u64::to_string` writes it.
pub fn decimal_text(n: u64) -> (s: String)
    ensures
        s@ == decimal(n as nat),
        canonical_decimal(s@),
        decimal_value(s@) == n,
    decreases n,
{
    proof {
        law_decimal_is_canonical(n as nat);
    }
    if n < 10 {
        let mut s = String::new();
        s.append(digit_text(n));
        assert(s@ =~= decimal(n as nat));
        s
    } else {
        let mut s = decimal_text(n / 10);
        s.append(digit_text(n % 10));
        assert(s@ =~= decimal(n as nat));
        s
    }
}

/// The name of the file that holds the password of the keystore share of
/// `operator_id` for the validator whose key prints as `key_text`.
pub open spec fn password_file_name(key_text: Seq<char>, operator_id: u64) -> Seq<char> {
    key_text + seq!['_'] + decimal(operator_id as nat)
}

/// Builds `password_file_name`.
pub fn password_file_text(key_text: &String, operator_id: u64) -> (s: String)
    ensures
        s@ == password_file_name(key_text@, operator_id),
        s@.subrange(0, key_text@.len() as int) == key_text@,
        s@[key_text@.len() as int] == '_',
        canonical_decimal(s@.subrange(key_text@.len() as int + 1, s@.len() as int)),
        decimal_value(s@.subrange(key_text@.len() as int + 1, s@.len() as int)) == operator_id,
{
    proof {
        law_password_file_name_parts(key_text@, operator_id);
    }
    proof {
        reveal_strlit("_");
    }
    let mut s = key_text.clone();
    s.append("_");
    let id = decimal_text(operator_id);
    s.append(id.as_str());
    s
}

} // verus!
