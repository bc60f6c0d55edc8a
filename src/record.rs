use vstd::prelude::*;

use crate::model::{Amount, ClientId, Transaction, TxId, TxType, UNIT};

verus! {

/// `b` is an ASCII decimal digit.
pub open spec fn is_digit(b: u8) -> bool {
    0x30 <= b <= 0x39
}

/// Every byte of `s` is a decimal digit.
pub open spec fn all_digits(s: Seq<u8>) -> bool {
    forall|i: int| 0 <= i < s.len() ==> is_digit(#[trigger] s[i])
}

/// `b` is ASCII white space: space, tab, line feed, form feed or carriage return.
pub open spec fn is_space(b: u8) -> bool {
    b == 32 || b == 9 || b == 10 || b == 12 || b == 13
}

/// `s` without its leading white space.
pub open spec fn trim_start(s: Seq<u8>) -> Seq<u8>
    decreases s.len(),
{
    if s.len() > 0 && is_space(s[0]) {
        trim_start(s.drop_first())
    } else {
        s
    }
}

/// `s` without its trailing white space.
pub open spec fn trim_end(s: Seq<u8>) -> Seq<u8>
    decreases s.len(),
{
    if s.len() > 0 && is_space(s.last()) {
        trim_end(s.drop_last())
    } else {
        s
    }
}

/// `s` without its surrounding white space.
pub open spec fn trimmed(s: Seq<u8>) -> Seq<u8> {
    trim_end(trim_start(s))
}

/// The part of `b` between its leading and its trailing white space.
pub fn trim(b: &[u8]) -> (r: &[u8])
    ensures
        r@ == trimmed(b@),
{
    let mut i: usize = 0;
    assert(b@.skip(0) =~= b@);
    while i < b.len() && (b[i] == 32 || b[i] == 9 || b[i] == 10 || b[i] == 12 || b[i] == 13)
        invariant
            0 <= i <= b.len(),
            trim_start(b@) == trim_start(b@.skip(i as int)),
        decreases b.len() - i,
    {
        assert(b@.skip(i as int).drop_first() =~= b@.skip(i as int + 1));
        i = i + 1;
    }
    assert(trim_start(b@) == b@.skip(i as int));
    let mut j: usize = b.len();
    assert(b@.skip(i as int) =~= b@.subrange(i as int, j as int));
    while j > i && (b[j - 1] == 32 || b[j - 1] == 9 || b[j - 1] == 10 || b[j - 1] == 12 || b[j
        - 1] == 13)
        invariant
            0 <= i <= j <= b.len(),
            trimmed(b@) == trim_end(b@.subrange(i as int, j as int)),
        decreases j,
    {
        assert(b@.subrange(i as int, j as int).drop_last() =~= b@.subrange(i as int, j as int - 1));
        j = j - 1;
    }
    let r = &b[i..j];
    r
}

/// The number that the decimal digits `s` spell, most significant first.
pub open spec fn digits_value(s: Seq<u8>) -> nat
    decreases s.len(),
{
    if s.len() == 0 {
        0
    } else {
        digits_value(s.drop_last()) * 10 + (s.last() - 0x30) as nat
    }
}

/// The number that `s` spells, if it is a non-empty run of decimal digits.
pub open spec fn unsigned_of(s: Seq<u8>) -> Option<nat> {
    if s.len() > 0 && all_digits(s) {
        Some(digits_value(s))
    } else {
        None
    }
}

proof fn lemma_digits_value_grows(s: Seq<u8>, j: int, k: int)
    requires
        all_digits(s),
        0 <= j <= k <= s.len(),
    ensures
        digits_value(s.take(j)) <= digits_value(s.take(k)),
    decreases k - j,
{
    if j < k {
        lemma_digits_value_grows(s, j, k - 1);
        assert(s.take(k).drop_last() =~= s.take(k - 1));
    }
}

/// Reads a non-empty run of decimal digits whose value is at most `max`.
fn parse_unsigned(b: &[u8], max: u64) -> (r: Option<u64>)
    ensures
        r == (match unsigned_of(b@) {
            Some(v) => if v <= max {
                Some(v as u64)
            } else {
                None
            },
            None => None,
        }),
{
    if b.len() == 0 {
        return None;
    }
    let mut i: usize = 0;
    while i < b.len()
        invariant
            0 <= i <= b.len(),
            all_digits(b@.take(i as int)),
        decreases b.len() - i,
    {
        if b[i] < 0x30 || b[i] > 0x39 {
            assert(!all_digits(b@));
            return None;
        }
        assert(b@.take(i as int + 1) =~= b@.take(i as int).push(b@[i as int]));
        i = i + 1;
    }
    assert(b@.take(b.len() as int) =~= b@);
    let mut acc: u64 = 0;
    let mut j: usize = 0;
    while j < b.len()
        invariant
            0 <= j <= b.len(),
            all_digits(b@),
            acc == digits_value(b@.take(j as int)),
            acc <= max,
        decreases b.len() - j,
    {
        let d = (b[j] - 0x30) as u64;
        let next: u128 = acc as u128 * 10 + d as u128;
        proof {
            let t = b@.take(j as int + 1);
            assert(t.drop_last() =~= b@.take(j as int));
            assert(t.last() == b@[j as int]);
            assert(digits_value(t) == next);
        }
        if next > max as u128 {
            proof {
                lemma_digits_value_grows(b@, j as int + 1, b.len() as int);
                assert(b@.take(b.len() as int) =~= b@);
            }
            return None;
        }
        acc = next as u64;
        j = j + 1;
    }
    Some(acc)
}

/// The client id that the text `s` gives, if any.
pub open spec fn client_id_of(s: Seq<u8>) -> Option<ClientId> {
    match unsigned_of(s) {
        Some(v) => if v <= u16::MAX {
            Some(v as ClientId)
        } else {
            None
        },
        None => None,
    }
}

/// The transaction id that the text `s` gives, if any.
pub open spec fn tx_id_of(s: Seq<u8>) -> Option<TxId> {
    match unsigned_of(s) {
        Some(v) => if v <= u32::MAX {
            Some(v as TxId)
        } else {
            None
        },
        None => None,
    }
}

/// Reads a client id: decimal digits, at most 65535.
pub fn parse_client_id(b: &[u8]) -> (r: Option<ClientId>)
    ensures
        r == client_id_of(b@),
{
    match parse_unsigned(b, 0xffff) {
        Some(v) => Some(v as ClientId),
        None => None,
    }
}

/// Reads a transaction id: decimal digits, at most 4294967295.
pub fn parse_tx_id(b: &[u8]) -> (r: Option<TxId>)
    ensures
        r == tx_id_of(b@),
{
    match parse_unsigned(b, 0xffff_ffff) {
        Some(v) => Some(v as TxId),
        None => None,
    }
}

/// `b` with an ASCII upper-case letter turned to lower case.
pub open spec fn to_lower(b: u8) -> u8 {
    if 0x41 <= b <= 0x5a {
        (b + 0x20) as u8
    } else {
        b
    }
}

/// `s` spells the lower-case word `w`, ignoring ASCII case.
pub open spec fn spells(s: Seq<u8>, w: Seq<u8>) -> bool {
    s.len() == w.len() && forall|i: int| 0 <= i < s.len() ==> to_lower(#[trigger] s[i]) == w[i]
}

fn spells_word(b: &[u8], w: &[u8]) -> (r: bool)
    ensures
        r == spells(b@, w@),
{
    if b.len() != w.len() {
        return false;
    }
    let mut i: usize = 0;
    while i < b.len()
        invariant
            b.len() == w.len(),
            0 <= i <= b.len(),
            forall|k: int| 0 <= k < i ==> to_lower(#[trigger] b@[k]) == w@[k],
        decreases b.len() - i,
    {
        let c = if b[i] >= 0x41 && b[i] <= 0x5a {
            b[i] + 0x20
        } else {
            b[i]
        };
        if c != w[i] {
            return false;
        }
        i = i + 1;
    }
    true
}

/// `deposit` in ASCII.
pub open spec fn deposit_word() -> Seq<u8> {
    seq![100, 101, 112, 111, 115, 105, 116]
}

/// `withdrawal` in ASCII.
pub open spec fn withdrawal_word() -> Seq<u8> {
    seq![119, 105, 116, 104, 100, 114, 97, 119, 97, 108]
}

/// `dispute` in ASCII.
pub open spec fn dispute_word() -> Seq<u8> {
    seq![100, 105, 115, 112, 117, 116, 101]
}

/// `resolve` in ASCII.
pub open spec fn resolve_word() -> Seq<u8> {
    seq![114, 101, 115, 111, 108, 118, 101]
}

/// `chargeback` in ASCII.
pub open spec fn chargeback_word() -> Seq<u8> {
    seq![99, 104, 97, 114, 103, 101, 98, 97, 99, 107]
}

/// The kind that the text `s` names, if any: its lower-case name, in any ASCII case.
pub open spec fn kind_of(s: Seq<u8>) -> Option<TxType> {
    if spells(s, deposit_word()) {
        Some(TxType::Deposit)
    } else if spells(s, withdrawal_word()) {
        Some(TxType::Withdrawal)
    } else if spells(s, dispute_word()) {
        Some(TxType::Dispute)
    } else if spells(s, resolve_word()) {
        Some(TxType::Resolve)
    } else if spells(s, chargeback_word()) {
        Some(TxType::Chargeback)
    } else {
        None
    }
}

/// Reads the kind of a record: `deposit`, `withdrawal`, `dispute`, `resolve` or
/// `chargeback`, in any ASCII case.
pub fn parse_kind(b: &[u8]) -> (r: Option<TxType>)
    ensures
        r == kind_of(b@),
{
    let deposit: [u8; 7] = [100, 101, 112, 111, 115, 105, 116];
    let withdrawal: [u8; 10] = [119, 105, 116, 104, 100, 114, 97, 119, 97, 108];
    let dispute: [u8; 7] = [100, 105, 115, 112, 117, 116, 101];
    let resolve: [u8; 7] = [114, 101, 115, 111, 108, 118, 101];
    let chargeback: [u8; 10] = [99, 104, 97, 114, 103, 101, 98, 97, 99, 107];
    assert(deposit@ =~= deposit_word());
    assert(withdrawal@ =~= withdrawal_word());
    assert(dispute@ =~= dispute_word());
    assert(resolve@ =~= resolve_word());
    assert(chargeback@ =~= chargeback_word());
    if spells_word(b, &deposit) {
        Some(TxType::Deposit)
    } else if spells_word(b, &withdrawal) {
        Some(TxType::Withdrawal)
    } else if spells_word(b, &dispute) {
        Some(TxType::Dispute)
    } else if spells_word(b, &resolve) {
        Some(TxType::Resolve)
    } else if spells_word(b, &chargeback) {
        Some(TxType::Chargeback)
    } else {
        None
    }
}

/// The units that the fraction digits `f` give in their first `k` places, a missing digit
/// counting as zero.
pub open spec fn frac_units(f: Seq<u8>, k: nat) -> nat
    decreases k,
{
    if k == 0 {
        0
    } else {
        let d: nat = if k - 1 < f.len() {
            (f[k - 1] - 48) as nat
        } else {
            0
        };
        frac_units(f, (k - 1) as nat) * 10 + d
    }
}

/// One more unit where the fifth fraction digit is 5 or more: a fraction is rounded half up
/// to four places.
pub open spec fn round_unit(f: Seq<u8>) -> nat {
    if f.len() > 4 && f[4] >= 53 {
        1
    } else {
        0
    }
}

/// `s` is whole digits, a point at `k` and fraction digits, with at least one digit on
/// each side.
pub open spec fn point_at(s: Seq<u8>, k: int) -> bool {
    &&& 1 <= k < s.len() - 1
    &&& s[k] == 46
    &&& all_digits(s.take(k))
    &&& all_digits(s.skip(k + 1))
}

/// The size in units that `s` spells: digits, or digits, a point and digits.
pub open spec fn magnitude_of(s: Seq<u8>) -> Option<int> {
    if s.len() > 0 && all_digits(s) {
        Some(digits_value(s) * UNIT)
    } else if exists|k: int| point_at(s, k) {
        let k = choose|k: int| point_at(s, k);
        let f = s.skip(k + 1);
        Some(digits_value(s.take(k)) * UNIT + frac_units(f, 4) + round_unit(f))
    } else {
        None
    }
}

/// The amount in units that `s` spells: a size, with an optional minus sign before it.
pub open spec fn amount_value(s: Seq<u8>) -> Option<int> {
    if s.len() > 0 && s[0] == 45 {
        match magnitude_of(s.skip(1)) {
            Some(m) => Some(-m),
            None => None,
        }
    } else {
        magnitude_of(s)
    }
}

/// What the amount field `s` holds: `Some(None)` when it is empty, `Some(Some(a))` when it
/// spells an amount `a` that fits `Amount`, and `None` otherwise.
pub open spec fn amount_of(s: Seq<u8>) -> Option<Option<Amount>> {
    if s.len() == 0 {
        Some(None)
    } else {
        match amount_value(s) {
            Some(v) => if i64::MIN <= v <= i64::MAX {
                Some(Some(v as Amount))
            } else {
                None
            },
            None => None,
        }
    }
}

proof fn lemma_point_unique(s: Seq<u8>, k: int, j: int)
    requires
        point_at(s, k),
        point_at(s, j),
    ensures
        k == j,
{
    if k < j {
        assert(s.take(j)[k] == s[k]);
    } else if j < k {
        assert(s.take(k)[j] == s[j]);
    }
}

/// Ten to the power `k`.
pub open spec fn ten_pow(k: nat) -> nat
    decreases k,
{
    if k == 0 {
        1
    } else {
        10 * ten_pow((k - 1) as nat)
    }
}

/// The units of the first four fraction digits of `f`, rounded half up on the fifth.
fn fraction_units(f: &[u8]) -> (r: u64)
    requires
        all_digits(f@),
    ensures
        r == frac_units(f@, 4) + round_unit(f@),
        r <= 10000,
{
    let mut acc: u64 = 0;
    let mut p: usize = 0;
    while p < 4
        invariant
            0 <= p <= 4,
            all_digits(f@),
            acc == frac_units(f@, p as nat),
            acc < ten_pow(p as nat),
        decreases 4 - p,
    {
        let d: u64 = if p < f.len() {
            assert(is_digit(f@[p as int]));
            (f[p] - 48) as u64
        } else {
            0
        };
        proof {
            reveal_with_fuel(ten_pow, 5);
            assert(ten_pow(p as nat) <= 1000);
        }
        assert(ten_pow(p as nat + 1) == 10 * ten_pow(p as nat));
        acc = acc * 10 + d;
        p = p + 1;
    }
    assert(ten_pow(4) == 10000) by {
        reveal_with_fuel(ten_pow, 5);
    }
    if f.len() > 4 && f[4] >= 53 {
        acc + 1
    } else {
        acc
    }
}

/// Reads a size in units. `None` where `s` spells none, or one above `u64::MAX` units.
fn parse_magnitude(s: &[u8]) -> (r: Option<u128>)
    ensures
        match r {
            Some(m) => magnitude_of(s@) == Some(m as int) && m <= u64::MAX * 10000 + 10000,
            None => magnitude_of(s@) is None || magnitude_of(s@).unwrap() > u64::MAX,
        },
{
    let mut k: usize = 0;
    while k < s.len() && s[k] != 46
        invariant
            0 <= k <= s.len(),
            forall|j: int| 0 <= j < k ==> s@[j] != 46,
        decreases s.len() - k,
    {
        k = k + 1;
    }
    if k == s.len() {
        proof {
            assert forall|j: int| !point_at(s@, j) by {
                if point_at(s@, j) {
                    assert(s@[j] == 46);
                }
            }
        }
        return match parse_unsigned(s, u64::MAX) {
            Some(w) => Some(w as u128 * UNIT as u128),
            None => None,
        };
    }
    proof {
        assert(!all_digits(s@)) by {
            assert(!is_digit(s@[k as int]));
        }
    }
    let whole = &s[0..k];
    let frac = &s[k + 1..s.len()];
    assert(whole@ =~= s@.take(k as int));
    assert(frac@ =~= s@.skip(k as int + 1));
    if frac.len() == 0 || whole.len() == 0 {
        proof {
            assert forall|j: int| !point_at(s@, j) by {
                if point_at(s@, j) {
                    if j > k {
                        assert(s@.take(j)[k as int] == s@[k as int]);
                    }
                }
            }
        }
        return None;
    }
    let w = match parse_unsigned(whole, u64::MAX) {
        Some(w) => w,
        None => {
            proof {
                assert forall|j: int| point_at(s@, j) implies j == k && digits_value(whole@)
                    > u64::MAX by {
                    if j > k {
                        assert(s@.take(j)[k as int] == s@[k as int]);
                    }
                }
            }
            return None;
        },
    };
    let mut i: usize = 0;
    while i < frac.len()
        invariant
            0 <= i <= frac.len(),
            k < s.len(),
            s@[k as int] == 46,
            frac@ == s@.skip(k as int + 1),
            forall|j: int| 0 <= j < k ==> s@[j] != 46,
            forall|j: int| 0 <= j < i ==> is_digit(#[trigger] frac@[j]),
        decreases frac.len() - i,
    {
        if frac[i] < 48 || frac[i] > 57 {
            proof {
                assert forall|j: int| !point_at(s@, j) by {
                    if point_at(s@, j) {
                        if j > k {
                            assert(s@.take(j)[k as int] == s@[k as int]);
                        } else {
                            assert(s@.skip(k as int + 1)[i as int] == frac@[i as int]);
                        }
                    }
                }
            }
            return None;
        }
        i = i + 1;
    }
    proof {
        assert(point_at(s@, k as int));
        assert forall|j: int| point_at(s@, j) implies j == k by {
            lemma_point_unique(s@, k as int, j);
        }
    }
    let units = fraction_units(frac);
    Some(w as u128 * UNIT as u128 + units as u128)
}

/// Reads an amount field: empty for none, else an optional `-`, digits, and optionally a
/// point and more digits; places past the fourth are rounded half up.
pub fn parse_amount(b: &[u8]) -> (r: Result<Option<Amount>, RecordError>)
    ensures
        r == (match amount_of(b@) {
            Some(a) => Ok(a),
            None => Err(RecordError::Amount),
        }),
{
    if b.len() == 0 {
        return Ok(None);
    }
    let neg = b[0] == 45;
    let body: &[u8] = if neg {
        &b[1..b.len()]
    } else {
        b
    };
    assert(neg ==> body@ =~= b@.skip(1));
    let m = match parse_magnitude(body) {
        Some(m) => m,
        None => {
            return Err(RecordError::Amount);
        },
    };
    let v: i128 = if neg {
        -(m as i128)
    } else {
        m as i128
    };
    if v < i64::MIN as i128 || v > i64::MAX as i128 {
        return Err(RecordError::Amount);
    }
    Ok(Some(v as Amount))
}

/// Why a record could not be read.
#[derive(Copy, Clone, Debug, PartialEq, Eq, Structural)]
pub enum RecordError {
    /// The record does not have the four fields type, client, tx and amount.
    FieldCount { found: usize },
    /// The type field names no kind of transaction.
    Kind,
    /// The client field is not a client id.
    ClientId,
    /// The tx field is not a transaction id.
    TxId,
    /// The amount field is neither empty nor an amount.
    Amount,
}

/// The record that the fields `fs` give: type, client, tx and amount, in that order, each
/// read without its surrounding white space.
pub open spec fn record_of(fs: Seq<Seq<u8>>) -> Result<Transaction, RecordError> {
    if fs.len() != 4 {
        Err(RecordError::FieldCount { found: fs.len() as usize })
    } else {
        let kind = kind_of(trimmed(fs[0]));
        let client = client_id_of(trimmed(fs[1]));
        let tx = tx_id_of(trimmed(fs[2]));
        let amount = amount_of(trimmed(fs[3]));
        if kind is None {
            Err(RecordError::Kind)
        } else if client is None {
            Err(RecordError::ClientId)
        } else if tx is None {
            Err(RecordError::TxId)
        } else if amount is None {
            Err(RecordError::Amount)
        } else {
            Ok(
                Transaction {
                    tx_type: kind.unwrap(),
                    client_id: client.unwrap(),
                    tx_id: tx.unwrap(),
                    amount: amount.unwrap(),
                },
            )
        }
    }
}

/// The bytes of each field of `fields`.
pub open spec fn field_bytes(fields: Seq<Vec<u8>>) -> Seq<Seq<u8>> {
    fields.map_values(|f: Vec<u8>| f@)
}

/// Reads one record from its fields; white space around a field is ignored.
pub fn parse_record(fields: &Vec<Vec<u8>>) -> (r: Result<Transaction, RecordError>)
    ensures
        r == record_of(field_bytes(fields@)),
{
    if fields.len() != 4 {
        return Err(RecordError::FieldCount { found: fields.len() });
    }
    let tx_type = match parse_kind(trim(fields[0].as_slice())) {
        Some(k) => k,
        None => {
            return Err(RecordError::Kind);
        },
    };
    let client_id = match parse_client_id(trim(fields[1].as_slice())) {
        Some(c) => c,
        None => {
            return Err(RecordError::ClientId);
        },
    };
    let tx_id = match parse_tx_id(trim(fields[2].as_slice())) {
        Some(t) => t,
        None => {
            return Err(RecordError::TxId);
        },
    };
    let amount = match parse_amount(trim(fields[3].as_slice())) {
        Ok(a) => a,
        Err(e) => {
            return Err(e);
        },
    };
    Ok(Transaction { tx_type, client_id, tx_id, amount })
}

} // verus!
