use vstd::prelude::*;

verus! {

/// The character of a decimal digit.
pub open spec fn digit_char(d: int) -> char {
    if d <= 0 {
        '0'
    } else if d == 1 {
        '1'
    } else if d == 2 {
        '2'
    } else if d == 3 {
        '3'
    } else if d == 4 {
        '4'
    } else if d == 5 {
        '5'
    } else if d == 6 {
        '6'
    } else if d == 7 {
        '7'
    } else if d == 8 {
        '8'
    } else {
        '9'
    }
}

/// The decimal notation of `n`, without leading zeros.
pub open spec fn decimal(n: nat) -> Seq<char>
    decreases n,
{
    if n < 10 {
        seq![digit_char(n as int)]
    } else {
        decimal(n / 10).push(digit_char((n % 10) as int))
    }
}

/// A run of `k` zero characters.
pub open spec fn zeros(k: nat) -> Seq<char> {
    Seq::new(k, |i: int| '0')
}

/// The decimal notation of `n`, left-padded with zeros to at least `width`
/// characters.
pub open spec fn zero_padded(n: nat, width: nat) -> Seq<char> {
    let d = decimal(n);
    if d.len() >= width {
        d
    } else {
        zeros((width - d.len()) as nat) + d
    }
}

/// The fixed-point notation, with exactly one fractional digit, of the value
/// `t / 10`.
pub open spec fn tenths_text(t: int) -> Seq<char> {
    let a = if t < 0 {
        -t
    } else {
        t
    };
    let sign = if t < 0 {
        seq!['-']
    } else {
        Seq::empty()
    };
    sign + decimal((a / 10) as nat) + seq!['.', digit_char(a % 10)]
}

/// Appends the digit `d` to `s`.
pub fn push_digit(s: &mut String, d: u64)
    requires
        d < 10,
    ensures
        final(s)@ == old(s)@.push(digit_char(d as int)),
{
    proof {
        reveal_strlit("0");
        reveal_strlit("1");
        reveal_strlit("2");
        reveal_strlit("3");
        reveal_strlit("4");
        reveal_strlit("5");
        reveal_strlit("6");
        reveal_strlit("7");
        reveal_strlit("8");
        reveal_strlit("9");
    }
    let ghost before = s@;
    if d == 0 {
        s.append("0");
    } else if d == 1 {
        s.append("1");
    } else if d == 2 {
        s.append("2");
    } else if d == 3 {
        s.append("3");
    } else if d == 4 {
        s.append("4");
    } else if d == 5 {
        s.append("5");
    } else if d == 6 {
        s.append("6");
    } else if d == 7 {
        s.append("7");
    } else if d == 8 {
        s.append("8");
    } else {
        s.append("9");
    }
    assert(s@ =~= before.push(digit_char(d as int)));
}

/// Appends the decimal notation of `n` to `s`.
pub fn push_decimal(s: &mut String, n: u64)
    ensures
        final(s)@ == old(s)@ + decimal(n as nat),
    decreases n,
{
    let ghost before = s@;
    if n >= 10 {
        push_decimal(s, n / 10);
    }
    push_digit(s, n % 10);
    assert(s@ =~= before + decimal(n as nat));
}

/// The number of characters in the decimal notation of `n`.
pub fn decimal_len(n: u64) -> (r: u64)
    ensures
        r == decimal(n as nat).len(),
        1 <= r <= n as int + 1,
    decreases n,
{
    if n < 10 {
        1
    } else {
        decimal_len(n / 10) + 1
    }
}

/// Appends the decimal notation of `n`, left-padded with zeros to at least
/// `width` characters, to `s`.
pub fn push_zero_padded(s: &mut String, n: u64, width: u64)
    ensures
        final(s)@ == old(s)@ + zero_padded(n as nat, width as nat),
{
    let ghost before = s@;
    let len = decimal_len(n);
    let mut i: u64 = len;
    while i < width
        invariant
            len <= i,
            i <= width || i == len,
            s@ == before + zeros((i - len) as nat),
        decreases width - i,
    {
        s.append("0");
        proof {
            reveal_strlit("0");
            assert(zeros((i + 1 - len) as nat) =~= zeros((i - len) as nat).push('0'));
        }
        i = i + 1;
    }
    let ghost padded = s@;
    push_decimal(s, n);
    proof {
        if len >= width {
            assert(zeros(0) =~= Seq::<char>::empty());
            assert(s@ =~= before + decimal(n as nat));
        } else {
            assert(i == width);
            assert(s@ =~= before + (zeros((width - len) as nat) + decimal(n as nat)));
        }
    }
}

/// Appends the fixed-point notation of `t / 10`, with one fractional digit,
/// to `s`.
pub fn push_tenths(s: &mut String, t: i32)
    ensures
        final(s)@ == old(s)@ + tenths_text(t as int),
{
    proof {
        reveal_strlit("-");
        reveal_strlit(".");
    }
    let ghost before = s@;
    let a: u64 = if t < 0 {
        (-(t as i64)) as u64
    } else {
        t as u64
    };
    if t < 0 {
        s.append("-");
    }
    let ghost signed = s@;
    push_decimal(s, a / 10);
    s.append(".");
    push_digit(s, a % 10);
    proof {
        let sign = if t < 0 {
            seq!['-']
        } else {
            Seq::<char>::empty()
        };
        assert(signed =~= before + sign);
        assert(s@ =~= before + tenths_text(t as int));
    }
}

} // verus!
