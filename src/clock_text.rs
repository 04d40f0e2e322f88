use vstd::prelude::*;

verus! {

/// The decimal digit character for `d` (0 to 9).
pub open spec fn digit_char(d: nat) -> char {
    if d == 0 { '0' }
    else if d == 1 { '1' }
    else if d == 2 { '2' }
    else if d == 3 { '3' }
    else if d == 4 { '4' }
    else if d == 5 { '5' }
    else if d == 6 { '6' }
    else if d == 7 { '7' }
    else if d == 8 { '8' }
    else { '9' }
}

/// The decimal notation of `n`, without leading zeros.
pub open spec fn decimal(n: nat) -> Seq<char>
    decreases n,
{
    if n < 10 {
        seq![digit_char(n)]
    } else {
        decimal(n / 10) + seq![digit_char(n % 10)]
    }
}

/// The decimal notation of `n`, padded with a zero to at least two digits.
pub open spec fn two_digits(n: nat) -> Seq<char> {
    if n < 10 {
        seq!['0', digit_char(n)]
    } else {
        decimal(n)
    }
}

/// Seconds shown as `MM:SS`, minutes padded to two digits and allowed more.
pub open spec fn clock_of(seconds: nat) -> Seq<char> {
    two_digits(seconds / 60) + seq![':'] + two_digits(seconds % 60)
}

/// The countdown text that names what is left of a phase.
pub open spec fn remaining_text_of(seconds: nat) -> Seq<char> {
    clock_of(seconds) + seq![' ', 'r', 'e', 'm', 'a', 'i', 'n', 'i', 'n', 'g', '.']
}

fn digit(d: u64) -> (c: char)
    requires
        d < 10,
    ensures
        c == digit_char(d as nat),
{
    if d == 0 { '0' }
    else if d == 1 { '1' }
    else if d == 2 { '2' }
    else if d == 3 { '3' }
    else if d == 4 { '4' }
    else if d == 5 { '5' }
    else if d == 6 { '6' }
    else if d == 7 { '7' }
    else if d == 8 { '8' }
    else { '9' }
}

/// Appends the decimal notation of `n`.
pub fn push_decimal(out: &mut Vec<char>, n: u64)
    ensures
        final(out)@ == old(out)@ + decimal(n as nat),
    decreases n,
{
    if n >= 10 {
        push_decimal(out, n / 10);
    }
    out.push(digit(n % 10));
    assert(final(out)@ =~= old(out)@ + decimal(n as nat));
}

/// Appends `n` in decimal, padded with a zero to at least two digits.
pub fn push_two_digits(out: &mut Vec<char>, n: u64)
    ensures
        final(out)@ == old(out)@ + two_digits(n as nat),
{
    if n < 10 {
        out.push('0');
        out.push(digit(n));
        assert(final(out)@ =~= old(out)@ + two_digits(n as nat));
    } else {
        push_decimal(out, n);
    }
}

/// `MM:SS` for a number of seconds.
pub fn clock_text(seconds: u64) -> (r: Vec<char>)
    ensures
        r@ == clock_of(seconds as nat),
{
    let mut r: Vec<char> = Vec::new();
    push_two_digits(&mut r, seconds / 60);
    r.push(':');
    push_two_digits(&mut r, seconds % 60);
    assert(r@ =~= clock_of(seconds as nat));
    r
}

/// `MM:SS remaining.` for a number of seconds: the live countdown text.
pub fn remaining_text(seconds: u64) -> (r: Vec<char>)
    ensures
        r@ == remaining_text_of(seconds as nat),
{
    let mut r = clock_text(seconds);
    let tail = [' ', 'r', 'e', 'm', 'a', 'i', 'n', 'i', 'n', 'g', '.'];
    let mut i: usize = 0;
    while i < 11
        invariant
            0 <= i <= 11,
            tail@ == seq![' ', 'r', 'e', 'm', 'a', 'i', 'n', 'i', 'n', 'g', '.'],
            r@ == clock_of(seconds as nat) + tail@.subrange(0, i as int),
        decreases 11 - i,
    {
        r.push(tail[i]);
        i = i + 1;
        assert(r@ =~= clock_of(seconds as nat) + tail@.subrange(0, i as int));
    }
    assert(tail@.subrange(0, 11) =~= tail@);
    r
}

} // verus!
