use vstd::prelude::*;

use crate::model::{Balance, ClientAccount, UNIT};

verus! {

/// The ASCII digit for `d`, which is below ten.
pub open spec fn digit(d: nat) -> u8 {
    (48 + d) as u8
}

/// The decimal digits of `n`, most significant first, and `0` for zero.
pub open spec fn decimal(n: nat) -> Seq<u8>
    decreases n,
{
    if n < 10 {
        seq![digit(n)]
    } else {
        decimal(n / 10).push(digit(n % 10))
    }
}

/// The digits of the four-place fraction `r`, below 10000, with trailing zeros dropped.
pub open spec fn fraction_text(r: nat) -> Seq<u8> {
    let d1 = digit(r / 1000);
    let d2 = digit((r / 100) % 10);
    let d3 = digit((r / 10) % 10);
    let d4 = digit(r % 10);
    if r == 0 {
        seq![]
    } else if r % 1000 == 0 {
        seq![d1]
    } else if r % 100 == 0 {
        seq![d1, d2]
    } else if r % 10 == 0 {
        seq![d1, d2, d3]
    } else {
        seq![d1, d2, d3, d4]
    }
}

/// The magnitude of `v`.
pub open spec fn magnitude(v: int) -> nat {
    if v < 0 {
        (-v) as nat
    } else {
        v as nat
    }
}

/// The text of the amount `v` units: a minus sign if negative, the whole part, and the
/// fraction to four places with trailing zeros, and then a trailing point, dropped.
pub open spec fn amount_text(v: int) -> Seq<u8> {
    let m = magnitude(v);
    let sign: Seq<u8> = if v < 0 {
        seq![45]
    } else {
        seq![]
    };
    let frac: Seq<u8> = if m % (UNIT as nat) == 0 {
        seq![]
    } else {
        seq![46u8] + fraction_text(m % (UNIT as nat))
    };
    sign + decimal(m / (UNIT as nat)) + frac
}

/// Writes the decimal digits of `n`.
pub fn decimal_digits(n: u128) -> (r: Vec<u8>)
    ensures
        r@ == decimal(n as nat),
{
    let mut out: Vec<u8> = Vec::new();
    let mut m = n;
    while m >= 10
        invariant
            decimal(n as nat) == decimal(m as nat) + out@,
        decreases m,
    {
        let d = (m % 10) as u8;
        proof {
            assert(decimal(m as nat) == decimal((m / 10) as nat).push(digit((m % 10) as nat)));
            assert(decimal((m / 10) as nat).push(digit((m % 10) as nat)) + out@ =~= decimal(
                (m / 10) as nat,
            ) + seq![digit((m % 10) as nat)].add(out@));
        }
        out.insert(0, 48 + d);
        m = m / 10;
    }
    out.insert(0, 48 + m as u8);
    proof {
        assert(decimal(m as nat) =~= seq![digit(m as nat)]);
    }
    assert(out@ =~= decimal(n as nat));
    out
}

/// Writes the balance `value`, in units, to four decimal places with trailing zeros, and
/// then a trailing point, dropped: `1005000` is `100.5` and `1000000` is `100`.
pub fn fmt_decimals(value: Balance) -> (r: Vec<u8>)
    ensures
        r@ == amount_text(value as int),
{
    let m: u128 = if value < 0 {
        (-(value + 1)) as u128 + 1
    } else {
        value as u128
    };
    assert(m == magnitude(value as int));
    let mut out: Vec<u8> = Vec::new();
    if value < 0 {
        out.push(45);
    }
    let mut whole = decimal_digits(m / UNIT as u128);
    out.append(&mut whole);
    let r = m % UNIT as u128;
    if r != 0 {
        out.push(46);
        out.push(48 + (r / 1000) as u8);
        if r % 1000 != 0 {
            out.push(48 + ((r / 100) % 10) as u8);
            if r % 100 != 0 {
                out.push(48 + ((r / 10) % 10) as u8);
                if r % 10 != 0 {
                    out.push(48 + (r % 10) as u8);
                }
            }
        }
    }
    assert(out@ =~= amount_text(value as int));
    out
}

/// Writes one line of the balance report: client, available, held, total and locked,
/// separated by commas.
pub fn report_row(account: &ClientAccount) -> (r: Vec<u8>)
    ensures
        r@ == row_text(*account),
{
    let mut out = decimal_digits(account.client_id as u128);
    out.push(44);
    let mut available = fmt_decimals(account.available);
    out.append(&mut available);
    out.push(44);
    let mut held = fmt_decimals(account.held);
    out.append(&mut held);
    out.push(44);
    let mut total = fmt_decimals(account.total);
    out.append(&mut total);
    out.push(44);
    let mut locked: Vec<u8> = if account.locked {
        vec![116, 114, 117, 101]
    } else {
        vec![102, 97, 108, 115, 101]
    };
    out.append(&mut locked);
    assert(out@ =~= row_text(*account));
    out
}

/// `true` or `false` in ASCII.
pub open spec fn bool_text(b: bool) -> Seq<u8> {
    if b {
        seq![116u8, 114, 117, 101]
    } else {
        seq![102u8, 97, 108, 115, 101]
    }
}

/// The report line of `a`: client, available, held, total and locked, separated by commas.
pub open spec fn row_text(a: ClientAccount) -> Seq<u8> {
    decimal(a.client_id as nat) + seq![44u8] + amount_text(a.available as int) + seq![44u8]
        + amount_text(a.held as int) + seq![44u8] + amount_text(a.total as int) + seq![44u8]
        + bool_text(a.locked)
}

} // verus!
