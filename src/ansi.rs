//! The text pieces of the output: decimal numbers and ANSI escape sequences.
use vstd::prelude::*;
use vstd::string::*;

verus! {

pub open spec fn digit_char(d: nat) -> char {
    if d == 0 {
        '0'
    } else if d == 1 {
        '1'
    } else if d == 2 {
        '2'
    } else if d == 3 {
        '3'
    } else if d == 4 {
        '4'
    } else if d == 5 {
        '5'
    } else if d == 6 {
        '6'
    } else if d == 7 {
        '7'
    } else if d == 8 {
        '8'
    } else {
        '9'
    }
}

/// Decimal digits of `n`, without leading zeros.
pub open spec fn decimal(n: nat) -> Seq<char>
    decreases n,
{
    if n < 10 {
        seq![digit_char(n)]
    } else {
        decimal(n / 10) + seq![digit_char(n % 10)]
    }
}

/// `R;G;B` in decimal.
pub open spec fn rgb_params(c: (u8, u8, u8)) -> Seq<char> {
    decimal(c.0 as nat) + seq![';'] + decimal(c.1 as nat) + seq![';'] + decimal(c.2 as nat)
}

/// `ESC[38;2;R;G;Bm`: sets the foreground colour.
pub open spec fn fg_escape(esc: Seq<char>, c: (u8, u8, u8)) -> Seq<char> {
    esc + seq!['[', '3', '8', ';', '2', ';'] + rgb_params(c) + seq!['m']
}

/// `ESC[38;2;R;G;B;48;2;R;G;Bm`: sets the foreground and the background colour.
pub open spec fn fg_bg_escape(esc: Seq<char>, fg: (u8, u8, u8), bg: (u8, u8, u8)) -> Seq<char> {
    esc + seq!['[', '3', '8', ';', '2', ';'] + rgb_params(fg) + seq![';', '4', '8', ';', '2', ';']
        + rgb_params(bg) + seq!['m']
}

/// `ESC[0m`: back to the default colours.
pub open spec fn reset_escape(esc: Seq<char>) -> Seq<char> {
    esc + seq!['[', '0', 'm']
}

fn push_digit(out: &mut String, d: u8)
    requires
        d < 10,
    ensures
        final(out)@ == old(out)@ + seq![digit_char(d as nat)],
{
    proof {
        reveal_strlit("0");
        reveal_strlit("1");
        reveal_strlit("2");
        reveal_strlit("3");
        reveal_strlit("4");
        reveal_strlit("5");
        reveal_strlit("6");
        reveal_strlit("7");
        reveal_strlit("8");
        reveal_strlit("9");
    }
    if d == 0 {
        out.append("0");
    } else if d == 1 {
        out.append("1");
    } else if d == 2 {
        out.append("2");
    } else if d == 3 {
        out.append("3");
    } else if d == 4 {
        out.append("4");
    } else if d == 5 {
        out.append("5");
    } else if d == 6 {
        out.append("6");
    } else if d == 7 {
        out.append("7");
    } else if d == 8 {
        out.append("8");
    } else {
        out.append("9");
    }
}

/// Appends `n` in decimal.
pub fn push_decimal(out: &mut String, n: u8)
    ensures
        final(out)@ == old(out)@ + decimal(n as nat),
{
    let ghost start = out@;
    if n >= 100 {
        push_digit(out, n / 100);
        assert(out@ =~= start + decimal((n / 100) as nat));
        push_digit(out, (n / 10) % 10);
        assert(out@ =~= start + decimal((n / 10) as nat));
        push_digit(out, n % 10);
        assert(decimal((n / 100) as nat) == seq![digit_char((n / 100) as nat)]);
        assert(decimal((n / 10) as nat) == decimal((n / 100) as nat) + seq![
            digit_char(((n / 10) % 10) as nat),
        ]);
        assert(decimal(n as nat) == decimal((n / 10) as nat) + seq![digit_char((n % 10) as nat)]);
        assert(out@ =~= start + (decimal((n / 10) as nat) + seq![digit_char((n % 10) as nat)]));
    } else if n >= 10 {
        push_digit(out, n / 10);
        push_digit(out, n % 10);
        assert(decimal((n / 10) as nat) == seq![digit_char((n / 10) as nat)]);
        assert(decimal(n as nat) == decimal((n / 10) as nat) + seq![digit_char((n % 10) as nat)]);
        assert(out@ =~= start + decimal(n as nat));
    } else {
        push_digit(out, n);
    }
}

fn push_rgb_params(out: &mut String, c: (u8, u8, u8))
    ensures
        final(out)@ == old(out)@ + rgb_params(c),
{
    let ghost start = out@;
    proof {
        reveal_strlit(";");
    }
    push_decimal(out, c.0);
    out.append(";");
    push_decimal(out, c.1);
    out.append(";");
    push_decimal(out, c.2);
    assert(out@ =~= start + rgb_params(c));
}

/// Appends the foreground escape for `c`.
pub fn push_fg(out: &mut String, esc: &str, c: (u8, u8, u8))
    ensures
        final(out)@ == old(out)@ + fg_escape(esc@, c),
{
    let ghost start = out@;
    proof {
        reveal_strlit("[38;2;");
        reveal_strlit("m");
    }
    out.append(esc);
    out.append("[38;2;");
    push_rgb_params(out, c);
    out.append("m");
    assert(out@ =~= start + fg_escape(esc@, c));
}

/// Appends the combined foreground and background escape.
pub fn push_fg_bg(out: &mut String, esc: &str, fg: (u8, u8, u8), bg: (u8, u8, u8))
    ensures
        final(out)@ == old(out)@ + fg_bg_escape(esc@, fg, bg),
{
    let ghost start = out@;
    proof {
        reveal_strlit("[38;2;");
        reveal_strlit(";48;2;");
        reveal_strlit("m");
    }
    out.append(esc);
    out.append("[38;2;");
    push_rgb_params(out, fg);
    out.append(";48;2;");
    push_rgb_params(out, bg);
    out.append("m");
    assert(out@ =~= start + fg_bg_escape(esc@, fg, bg));
}

/// Appends the reset escape.
pub fn push_reset(out: &mut String, esc: &str)
    ensures
        final(out)@ == old(out)@ + reset_escape(esc@),
{
    let ghost start = out@;
    proof {
        reveal_strlit("[0m");
    }
    out.append(esc);
    out.append("[0m");
    assert(out@ =~= start + reset_escape(esc@));
}

} // verus!
