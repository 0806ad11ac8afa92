//! Plain text pieces of labels: decimal numbers, joined names, line locations.
use vstd::prelude::*;
use vstd::string::StringExecFns;

verus! {

pub open spec fn digit_char(d: nat) -> char {
    if d == 0 {
        '0'
    } else if d == 1 {
        '1'
    } else if d == 2 {
        '2'
    } else if d == 3 {
        '3'
    } else if d == 4 {
        '4'
    } else if d == 5 {
        '5'
    } else if d == 6 {
        '6'
    } else if d == 7 {
        '7'
    } else if d == 8 {
        '8'
    } else {
        '9'
    }
}

/// Decimal notation of `n`, without leading zeros.
pub open spec fn decimal(n: nat) -> Seq<char>
    decreases n,
{
    if n < 10 {
        seq![digit_char(n)]
    } else {
        decimal(n / 10).push(digit_char(n % 10))
    }
}

/// `parts` with `sep` between each two of them.
pub open spec fn joined(parts: Seq<Seq<char>>, sep: Seq<char>) -> Seq<char>
    decreases parts.len(),
{
    if parts.len() == 0 {
        Seq::empty()
    } else if parts.len() == 1 {
        parts[0]
    } else {
        joined(parts.drop_last(), sep) + sep + parts.last()
    }
}

/// Where a declaration stands, from the zero-based index of its first line
/// and the index one past its last line: one line gives `" at line L"`,
/// several give `" at lines L1-L2"` (one-based).
pub open spec fn location_text(first: nat, end: nat) -> Seq<char> {
    if end <= first + 1 {
        " at line "@ + decimal(first + 1)
    } else {
        " at lines "@ + decimal(first + 1) + "-"@ + decimal(end)
    }
}

fn append_digit(out: &mut String, d: u128)
    requires
        d < 10,
    ensures
        final(out)@ == old(out)@.push(digit_char(d as nat)),
{
    proof {
        reveal_strlit("0");
        reveal_strlit("1");
        reveal_strlit("2");
        reveal_strlit("3");
        reveal_strlit("4");
        reveal_strlit("5");
        reveal_strlit("6");
        reveal_strlit("7");
        reveal_strlit("8");
        reveal_strlit("9");
    }
    let s = if d == 0 {
        "0"
    } else if d == 1 {
        "1"
    } else if d == 2 {
        "2"
    } else if d == 3 {
        "3"
    } else if d == 4 {
        "4"
    } else if d == 5 {
        "5"
    } else if d == 6 {
        "6"
    } else if d == 7 {
        "7"
    } else if d == 8 {
        "8"
    } else {
        "9"
    };
    out.append(s);
    assert(final(out)@ =~= old(out)@.push(digit_char(d as nat)));
}

/// Appends the decimal notation of `n`.
pub fn append_decimal(out: &mut String, n: u128)
    ensures
        final(out)@ == old(out)@ + decimal(n as nat),
    decreases n,
{
    if n < 10 {
        append_digit(out, n);
        assert(final(out)@ =~= old(out)@ + decimal(n as nat));
    } else {
        append_decimal(out, n / 10);
        append_digit(out, n % 10);
        assert(final(out)@ =~= old(out)@ + decimal(n as nat));
    }
}

/// The location suffix of a label, from the line range that a declaration's
/// span covers (`first` inclusive, `end` exclusive, both zero-based).
pub fn location_suffix(first: usize, end: usize) -> (r: String)
    ensures
        r@ == location_text(first as nat, end as nat),
{
    proof {
        reveal_strlit(" at line ");
        reveal_strlit(" at lines ");
        reveal_strlit("-");
    }
    if end <= first || end - first <= 1 {
        let mut r = String::from_str(" at line ");
        append_decimal(&mut r, first as u128 + 1);
        r
    } else {
        let mut r = String::from_str(" at lines ");
        append_decimal(&mut r, first as u128 + 1);
        r.append("-");
        append_decimal(&mut r, end as u128);
        assert(r@ =~= location_text(first as nat, end as nat));
        r
    }
}

/// A declaration that covers exactly line `first_line` is placed
/// `" at line L"`; one that covers lines `first_line` to `last_line`, the
/// first before the last, is placed `" at lines L1-L2"`.
pub proof fn location_names_its_lines(first_line: nat, last_line: nat)
    requires
        1 <= first_line <= last_line,
    ensures
        first_line == last_line ==> location_text((first_line - 1) as nat, last_line)
            == " at line "@ + decimal(first_line),
        first_line < last_line ==> location_text((first_line - 1) as nat, last_line)
            == " at lines "@ + decimal(first_line) + "-"@ + decimal(last_line),
{
}

} // verus!
