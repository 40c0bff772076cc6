use vstd::prelude::*;
use crate::task::{Task, TaskModel};

verus! {

/// The decimal digit for a value below ten.
pub open spec fn digit_char(d: nat) -> char {
    if d < 10 {
        ((d + '0' as nat) as u8) as char
    } else {
        '?'
    }
}

/// The decimal numeral of a natural number, without leading zeros.
pub open spec fn decimal(n: nat) -> Seq<char>
    decreases n,
{
    if n < 10 {
        seq![digit_char(n)]
    } else {
        decimal(n / 10).push(digit_char(n % 10))
    }
}

/// The marker for a task that is done, or not.
pub open spec fn checkbox(completed: bool) -> Seq<char> {
    if completed {
        seq!['[', 'x', ']']
    } else {
        seq!['[', ' ', ']']
    }
}

/// How a task is listed: `<id> <checkbox>: <description>`.
pub open spec fn task_line(t: TaskModel) -> Seq<char> {
    decimal(t.id as nat) + seq![' '] + checkbox(t.completed) + seq![':', ' '] + t.description
}

fn digit_str(d: u64) -> (r: &'static str)
    requires
        d < 10,
    ensures
        r@ == seq![digit_char(d as nat)],
{
    proof {
        reveal_strlit("0");
        reveal_strlit("1");
        reveal_strlit("2");
        reveal_strlit("3");
        reveal_strlit("4");
        reveal_strlit("5");
        reveal_strlit("6");
        reveal_strlit("7");
        reveal_strlit("8");
        reveal_strlit("9");
    }
    let r = if d == 0 {
        "0"
    } else if d == 1 {
        "1"
    } else if d == 2 {
        "2"
    } else if d == 3 {
        "3"
    } else if d == 4 {
        "4"
    } else if d == 5 {
        "5"
    } else if d == 6 {
        "6"
    } else if d == 7 {
        "7"
    } else if d == 8 {
        "8"
    } else {
        "9"
    };
    assert(r@ =~= seq![digit_char(d as nat)]);
    r
}

/// Appends the decimal numeral of `n` to `out`.
pub fn push_decimal(out: &mut String, n: u64)
    ensures
        final(out)@ == old(out)@ + decimal(n as nat),
    decreases n,
{
    if n >= 10 {
        push_decimal(out, n / 10);
    }
    out.append(digit_str(n % 10));
    assert(out@ =~= old(out)@ + decimal(n as nat));
}

/// The line under which a task is listed.
pub fn format_task(t: &Task) -> (r: String)
    ensures
        r@ == task_line(t@),
{
    let mut s = String::new();
    push_decimal(&mut s, t.id as u64);
    proof {
        reveal_strlit(" ");
        reveal_strlit("[x]: ");
        reveal_strlit("[ ]: ");
    }
    s.append(" ");
    if t.completed {
        s.append("[x]: ");
    } else {
        s.append("[ ]: ");
    }
    s.append(t.description.as_str());
    assert(s@ =~= task_line(t@));
    s
}

} // verus!
