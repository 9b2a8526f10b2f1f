//! The running counter behind the barcodes `Z0000001`, `Z0000002`, ...

use vstd::prelude::*;
use vstd::arithmetic::div_mod::{lemma_fundamental_div_mod, lemma_fundamental_div_mod_converse, lemma_mod_equivalence, lemma_small_mod};
use crate::errors::DomainError;
use crate::text::{all_digits, chars_of, decimal, digit_char, digits_value, is_digit, parse_unsigned, parse_unsigned_chars, push_decimal};

verus! {

/// The largest counter value; the value after it is 1.
pub const MAX_CODE: u64 = 9_999_999;

/// The number of digits after the `Z` of a code.
pub const CODE_LENGTH: usize = 7;

/// `w` characters `'0'`.
pub open spec fn zeros(w: nat) -> Seq<char> {
    Seq::new(w, |i: int| '0')
}

/// `s` preceded by as many `'0'` as it takes to reach `w` characters.
pub open spec fn zero_pad(s: Seq<char>, w: nat) -> Seq<char> {
    if s.len() < w {
        zeros((w - s.len()) as nat) + s
    } else {
        s
    }
}

/// The code for a counter value: `Z` and the value in decimal, padded with
/// zeros to at least seven digits.
pub open spec fn code_of(v: nat) -> Seq<char> {
    seq!['Z'] + zero_pad(decimal(v), CODE_LENGTH as nat)
}

/// The counter value that follows `v`, with 1 after `MAX_CODE`.
pub open spec fn increment(v: nat) -> nat {
    if v >= MAX_CODE {
        1
    } else {
        v + 1
    }
}

/// `increment` applied `k` times to `v`.
pub open spec fn advance(v: nat, k: nat) -> nat
    decreases k,
{
    if k == 0 {
        v
    } else {
        increment(advance(v, (k - 1) as nat))
    }
}

/// The value a code stands for: eight characters, `Z` first, and the rest
/// read as `str::parse::<u64>` reads it.
pub open spec fn parse_code_spec(code: Seq<char>) -> Option<nat> {
    if code.len() == CODE_LENGTH + 1 && code[0] == 'Z' {
        parse_unsigned(code.drop_first(), u64::MAX as nat)
    } else {
        None
    }
}

/// The `k` codes that follow `v`, starting at `start` (which is the first one).
pub open spec fn code_run(start: nat, k: nat) -> Seq<Seq<char>> {
    Seq::new(k, |i: int| code_of(advance(start, i as nat)))
}

/// The last code value that was handed out.
#[derive(Debug, PartialEq, Eq)]
pub struct Sequence {
    last_used: u64,
}

impl View for Sequence {
    type V = nat;

    closed spec fn view(&self) -> nat {
        self.last_used as nat
    }
}

impl Clone for Sequence {
    fn clone(&self) -> (r: Self)
        ensures
            r@ == self@,
    {
        proof { use_type_invariant(self); }
        Sequence { last_used: self.last_used }
    }
}

impl Sequence {
    #[verifier::type_invariant]
    closed spec fn within_range(self) -> bool {
        self.last_used <= MAX_CODE
    }

    /// A sequence whose last used value is `last_used`; refused above `MAX_CODE`.
    pub fn new(last_used: u64) -> (r: Result<Self, DomainError>)
        ensures
            last_used <= MAX_CODE ==> (r matches Ok(s) && s@ == last_used),
            last_used > MAX_CODE ==> (r matches Err(DomainError::SequenceOverflow { value }) && value == last_used),
    {
        if last_used > MAX_CODE {
            return Err(DomainError::SequenceOverflow { value: last_used });
        }
        Ok(Self { last_used })
    }

    /// The sequence whose last used code is `code`.
    pub fn from_code(code: &str) -> (r: Result<Self, DomainError>)
        ensures
            parse_code_spec(code@) matches Some(v) ==> (r matches Ok(s) && s@ == v),
            parse_code_spec(code@) is None ==> (r matches Err(DomainError::InvalidBarcode { code: c }) && c@ == code@),
    {
        let number = Self::parse_code(code)?;
        proof { lemma_parse_code_in_range(code@); }
        Ok(Self { last_used: number })
    }

    /// The last used value.
    pub fn last_used_value(&self) -> (v: u64)
        ensures
            v == self@,
            v <= MAX_CODE,
    {
        proof { use_type_invariant(self); }
        self.last_used
    }

    /// The code of the last used value.
    pub fn last_used_code(&self) -> (s: String)
        ensures
            s@ == code_of(self@),
    {
        Sequence::to_code(self.last_used)
    }

    /// The code for `value`: `Z` followed by the value in decimal, padded with
    /// zeros to seven digits.
    pub fn to_code(value: u64) -> (s: String)
        ensures
            s@ == code_of(value as nat),
    {
        let mut s = String::from_str("Z");
        proof { reveal_strlit("Z"); }
        let len = decimal_len(value);
        let mut pad: usize = 0;
        if len < CODE_LENGTH {
            pad = CODE_LENGTH - len;
        }
        let mut i: usize = 0;
        while i < pad
            invariant
                i <= pad,
                s@ == seq!['Z'] + zeros(i as nat),
            decreases pad - i,
        {
            s.append("0");
            proof { reveal_strlit("0"); }
            i = i + 1;
            assert(s@ =~= seq!['Z'] + zeros(i as nat));
        }
        push_decimal(&mut s, value);
        assert(s@ =~= code_of(value as nat)) by {
            if decimal(value as nat).len() >= CODE_LENGTH {
                assert(zeros(0) + decimal(value as nat) =~= decimal(value as nat));
            }
        }
        s
    }

    /// The value of a code: refused unless the code is `Z` and seven more
    /// characters that `str::parse::<u64>` accepts.
    pub fn parse_code(code: &str) -> (r: Result<u64, DomainError>)
        ensures
            parse_code_spec(code@) matches Some(v) ==> r == Ok::<u64, DomainError>(v as u64),
            parse_code_spec(code@) is None ==> (r matches Err(DomainError::InvalidBarcode { code: c }) && c@ == code@),
    {
        let chars = chars_of(code);
        if chars.len() != CODE_LENGTH + 1 || chars[0] != 'Z' {
            return Err(DomainError::InvalidBarcode { code: String::from_str(code) });
        }
        match parse_unsigned_chars(&chars, 1, chars.len(), u64::MAX) {
            Some(v) => {
                assert(chars@.subrange(1, chars@.len() as int) =~= code@.drop_first());
                Ok(v)
            },
            None => {
                assert(chars@.subrange(1, chars@.len() as int) =~= code@.drop_first());
                Err(DomainError::InvalidBarcode { code: String::from_str(code) })
            },
        }
    }


    /// The text form of the sequence: the code of its last used value.
    pub fn to_string(&self) -> (s: String)
        ensures
            s@ == code_of(self@),
    {
        self.last_used_code()
    }

    fn increment_value(&self, current: u64) -> (r: u64)
        ensures
            r == increment(current as nat),
    {
        if current >= MAX_CODE {
            1
        } else {
            current + 1
        }
    }

    /// Moves to the following value, 1 after `MAX_CODE`, and returns its code.
    pub fn next(&mut self) -> (code: String)
        ensures
            final(self)@ == increment(old(self)@),
            code@ == code_of(final(self)@),
    {
        self.last_used = self.increment_value(self.last_used);
        Sequence::to_code(self.last_used)
    }

    /// Hands out the next `n` codes, in order; refuses `n == 0`.
    pub fn next_n(&mut self, n: u64) -> (r: Result<Vec<String>, DomainError>)
        ensures
            n == 0 ==> (r matches Err(DomainError::InvalidQuantity { value }) && value == 0 && final(self)@ == old(self)@),
            n > 0 ==> (r matches Ok(codes) && codes@.len() == n
                && (forall|i: int| 0 <= i < n ==> #[trigger] codes@[i]@ == code_of(advance(old(self)@, (i + 1) as nat)))
                && final(self)@ == advance(old(self)@, n as nat)),
    {
        if n == 0 {
            return Err(DomainError::InvalidQuantity { value: 0 });
        }
        let mut codes: Vec<String> = Vec::new();
        let mut i: u64 = 0;
        while i < n
            invariant
                i <= n,
                codes@.len() == i,
                self@ == advance(old(self)@, i as nat),
                forall|j: int| 0 <= j < i ==> #[trigger] codes@[j]@ == code_of(advance(old(self)@, (j + 1) as nat)),
            decreases n - i,
        {
            let code = self.next();
            codes.push(code);
            i = i + 1;
        }
        Ok(codes)
    }

    fn generate_codes(&self, start: u64, quantity: u64) -> (r: Result<Vec<String>, DomainError>)
        ensures
            r matches Ok(codes) && codes@.len() == quantity
                && forall|i: int| 0 <= i < quantity ==> #[trigger] codes@[i]@ == code_of(advance(start as nat, i as nat)),
    {
        let mut codes: Vec<String> = Vec::new();
        let mut current = start;
        let mut i: u64 = 0;
        while i < quantity
            invariant
                i <= quantity,
                codes@.len() == i,
                current == advance(start as nat, i as nat),
                forall|j: int| 0 <= j < i ==> #[trigger] codes@[j]@ == code_of(advance(start as nat, j as nat)),
            decreases quantity - i,
        {
            codes.push(Sequence::to_code(current));
            current = self.increment_value(current);
            i = i + 1;
        }
        Ok(codes)
    }

    /// Reserves the next `quantity` codes: returns the first, the last and all
    /// of them, and makes the last one the last used; refuses `quantity == 0`.
    pub fn reserve_range(&mut self, quantity: u64) -> (r: Result<(String, String, Vec<String>), DomainError>)
        ensures
            quantity == 0 ==> (r matches Err(DomainError::InvalidQuantity { value }) && value == 0 && final(self)@ == old(self)@),
            quantity > 0 ==> (r matches Ok((start, end, codes))
                && start@ == code_of(increment(old(self)@))
                && end@ == code_of(advance(increment(old(self)@), (quantity - 1) as nat))
                && codes@.len() == quantity
                && (forall|i: int| 0 <= i < quantity ==> #[trigger] codes@[i]@ == code_of(advance(increment(old(self)@), i as nat)))
                && final(self)@ == advance(increment(old(self)@), (quantity - 1) as nat)),
    {
        proof { use_type_invariant(&*self); }
        if quantity == 0 {
            return Err(DomainError::InvalidQuantity { value: 0 });
        }
        let start = self.increment_value(self.last_used);
        let codes = self.generate_codes(start, quantity)?;
        let end = codes[codes.len() - 1].clone();
        proof {
            lemma_advance_in_range(start as nat, (quantity - 1) as nat);
            lemma_code_round_trip(advance(start as nat, (quantity - 1) as nat));
        }
        self.last_used = Sequence::parse_code(&end)?;
        Ok((Sequence::to_code(start), end, codes))
    }
}


/// Values stay between 1 and `MAX_CODE` once incremented.
pub proof fn lemma_advance_in_range(v: nat, k: nat)
    requires
        v <= MAX_CODE,
    ensures
        advance(v, k) <= MAX_CODE,
        k > 0 ==> advance(v, k) >= 1,
    decreases k,
{
    if k > 0 {
        lemma_advance_in_range(v, (k - 1) as nat);
    }
}

/// Reading back the code of a value in range gives the value.
pub proof fn lemma_code_round_trip(v: nat)
    requires
        v <= MAX_CODE,
    ensures
        code_of(v).len() == CODE_LENGTH + 1,
        parse_code_spec(code_of(v)) == Some(v),
{
    lemma_decimal_short(v);
    let d = decimal(v);
    let w = (CODE_LENGTH - d.len()) as nat;
    lemma_leading_zeros(w, d);
    let p = zero_pad(d, CODE_LENGTH as nat);
    if d.len() < CODE_LENGTH {
        assert(p == zeros(w) + d);
    } else {
        assert(zeros(0) + d =~= d);
        assert(p == zeros(w) + d);
    }
    assert(code_of(v).drop_first() =~= p);
    assert(is_digit(p[0]));
}


/// Handing out codes one by one from a state gives the same codes as
/// reserving a range from it: the `i`-th code after `v` is the `i`-th
/// value from `increment(v)`.
pub proof fn lemma_next_matches_reserve(v: nat, i: nat)
    ensures
        advance(v, i + 1) == advance(increment(v), i),
    decreases i,
{
    if i > 0 {
        lemma_next_matches_reserve(v, (i - 1) as nat);
        assert(advance(v, i + 1) == increment(advance(v, i)));
        assert(advance(increment(v), i) == increment(advance(increment(v), (i - 1) as nat)));
    } else {
        assert(advance(v, 1) == increment(advance(v, 0)));
    }
}

/// The range reserved after another one begins with the value that follows
/// the other's last code.
pub proof fn lemma_reservations_contiguous(last: nat, first_quantity: nat)
    requires
        first_quantity > 0,
    ensures
        increment(advance(increment(last), (first_quantity - 1) as nat)) == advance(increment(last), first_quantity),
{
}

/// From a value between 1 and `MAX_CODE`, the values run round the cycle
/// 1, ..., `MAX_CODE`.
pub proof fn lemma_advance_closed_form(s: nat, k: nat)
    requires
        1 <= s <= MAX_CODE,
    ensures
        advance(s, k) == ((s - 1 + k) % (MAX_CODE as int)) + 1,
    decreases k,
{
    let m = MAX_CODE as int;
    if k == 0 {
        lemma_small_mod((s - 1) as nat, MAX_CODE as nat);
    } else {
        lemma_advance_closed_form(s, (k - 1) as nat);
        let x: int = s - 1 + (k - 1);
        lemma_fundamental_div_mod(x, m);
        let a = x % m;
        if a + 1 == m {
            lemma_fundamental_div_mod_converse(x + 1, m, x / m + 1, 0);
        } else {
            lemma_fundamental_div_mod_converse(x + 1, m, x / m, a + 1);
        }
    }
}

/// Distinct values give distinct codes.
pub proof fn lemma_code_of_injective(a: nat, b: nat)
    requires
        a <= MAX_CODE,
        b <= MAX_CODE,
        a != b,
    ensures
        code_of(a) != code_of(b),
{
    lemma_code_round_trip(a);
    lemma_code_round_trip(b);
}

/// A reservation of at most `MAX_CODE` codes never holds the same code twice.
pub proof fn lemma_reserved_codes_distinct(last: nat, quantity: nat, i: nat, j: nat)
    requires
        last <= MAX_CODE,
        quantity <= MAX_CODE,
        i < j < quantity,
    ensures
        code_of(advance(increment(last), i)) != code_of(advance(increment(last), j)),
{
    let s = increment(last);
    let m = MAX_CODE as int;
    lemma_advance_closed_form(s, i);
    lemma_advance_closed_form(s, j);
    lemma_mod_equivalence(s - 1 + j, s - 1 + i, m);
    lemma_small_mod((j - i) as nat, MAX_CODE as nat);
    lemma_advance_in_range(s, i);
    lemma_advance_in_range(s, j);
    lemma_code_of_injective(advance(s, i), advance(s, j));
}

/// Number of characters of `decimal(n)`.
fn decimal_len(n: u64) -> (len: usize)
    ensures
        len == decimal(n as nat).len(),
    decreases n,
{
    if n < 10 {
        1
    } else {
        let l = decimal_len(n / 10);
        proof { lemma_decimal_short(n as nat); }
        l + 1
    }
}

/// A decimal rendering is made of digits denoting the number, and has as
/// many characters as the number has digits.
pub proof fn lemma_decimal_short(n: nat)
    ensures
        decimal(n).len() >= 1,
        n < pow10(decimal(n).len()),
        n >= 10 ==> pow10((decimal(n).len() - 1) as nat) <= n,
        n <= u64::MAX ==> decimal(n).len() <= 20,
        n <= MAX_CODE ==> decimal(n).len() <= CODE_LENGTH,
        all_digits(decimal(n)),
        digits_value(decimal(n)) == n,
    decreases n,
{
    lemma_digit_char((n % 10) as nat);
    if n >= 10 {
        lemma_decimal_short(n / 10);
        let d = decimal(n);
        assert(d.drop_last() =~= decimal(n / 10));
        assert forall|i: int| 0 <= i < d.len() implies is_digit(#[trigger] d[i]) by {
            if i < d.len() - 1 {
                assert(d[i] == decimal(n / 10)[i]);
            }
        }
        assert(pow10(d.len()) == 10 * pow10(decimal(n / 10).len()));
        assert(d.last() == digit_char((n % 10) as nat));
        assert(digits_value(d) == digits_value(decimal(n / 10)) * 10 + (n % 10));
        assert(digits_value(d) == n);
        if n / 10 >= 10 {
            assert(pow10((d.len() - 1) as nat) == 10 * pow10((decimal(n / 10).len() - 1) as nat));
        } else {
            assert(pow10(1) == 10) by { reveal_with_fuel(pow10, 2); }
        }
    } else {
        assert(pow10(1) == 10) by { reveal_with_fuel(pow10, 2); }
        assert(decimal(n).drop_last() =~= Seq::<char>::empty());
        assert(digits_value(Seq::<char>::empty()) == 0);
        assert(decimal(n).last() == digit_char(n));
        assert(digits_value(decimal(n)) == n);
    }
    if decimal(n).len() > 20 {
        lemma_pow10_mono(20, (decimal(n).len() - 1) as nat);
        assert(pow10(20) == 100_000_000_000_000_000_000) by { reveal_with_fuel(pow10, 21); }
    }
    if decimal(n).len() > 7 {
        lemma_pow10_mono(7, (decimal(n).len() - 1) as nat);
        assert(pow10(7) == 10_000_000) by { reveal_with_fuel(pow10, 8); }
    }
}

/// The digit characters are the ASCII codes 48 to 57.
pub proof fn lemma_digit_char(k: nat)
    requires
        k < 10,
    ensures
        digit_char(k) as nat == 48 + k,
        is_digit(digit_char(k)),
{
}

/// Leading zeros do not change the value of a digit string.
pub proof fn lemma_leading_zeros(w: nat, s: Seq<char>)
    ensures
        digits_value(zeros(w) + s) == digits_value(s),
        all_digits(s) ==> all_digits(zeros(w) + s),
    decreases s.len() + w,
{
    if s.len() > 0 {
        lemma_leading_zeros(w, s.drop_last());
        assert((zeros(w) + s).drop_last() =~= zeros(w) + s.drop_last());
    } else if w > 0 {
        lemma_leading_zeros((w - 1) as nat, s);
        assert((zeros(w) + s).drop_last() =~= zeros((w - 1) as nat) + s);
    }
    if all_digits(s) {
        assert forall|i: int| 0 <= i < (zeros(w) + s).len() implies is_digit(#[trigger] (zeros(w) + s)[i]) by {
            if i >= w {
                assert((zeros(w) + s)[i] == s[i - w]);
            }
        }
    }
}

/// A code, when read back, gives a value in range.
pub proof fn lemma_parse_code_in_range(code: Seq<char>)
    ensures
        parse_code_spec(code) matches Some(v) ==> v <= MAX_CODE,
{
    if parse_code_spec(code) is Some {
        let t = code.drop_first();
        let body = if t.len() > 1 && t[0] == '+' { t.drop_first() } else { t };
        assert(body.len() <= 7);
        lemma_digits_value_bound(body);
    }
}

/// A string of at most seven digits denotes at most `MAX_CODE`.
proof fn lemma_digits_value_bound(s: Seq<char>)
    requires
        all_digits(s),
        s.len() <= 7,
    ensures
        digits_value(s) < pow10(s.len()),
        digits_value(s) <= MAX_CODE,
    decreases s.len(),
{
    if s.len() > 0 {
        let t = s.drop_last();
        assert(all_digits(t)) by {
            assert forall|i: int| 0 <= i < t.len() implies is_digit(#[trigger] t[i]) by {
                assert(t[i] == s[i]);
            }
        }
        lemma_digits_value_bound(t);
        assert(is_digit(s[s.len() - 1]));
    }
    assert(pow10(7) == 10_000_000) by {
        reveal_with_fuel(pow10, 8);
    }
    lemma_pow10_mono(s.len(), 7);
}

/// Ten to the power `k`.
pub open spec fn pow10(k: nat) -> nat
    decreases k,
{
    if k == 0 {
        1
    } else {
        10 * pow10((k - 1) as nat)
    }
}

proof fn lemma_pow10_mono(a: nat, b: nat)
    requires
        a <= b,
    ensures
        pow10(a) <= pow10(b),
    decreases b,
{
    if a < b {
        lemma_pow10_mono(a, (b - 1) as nat);
    }
}


/// A code is `Z` and seven decimal digits that read as its counter value:
/// `Z0000042` for 42, `Z9999999` for the largest.
pub proof fn lemma_code_form(v: nat)
    requires
        v <= 9_999_999,
    ensures
        code_of(v).len() == 8,
        code_of(v)[0] == 'Z',
        forall|i: int| 1 <= i < 8 ==> '0' <= #[trigger] code_of(v)[i] <= '9',
        digits_value(code_of(v).drop_first()) == v,
{
    lemma_code_round_trip(v);
    let t = code_of(v).drop_first();
    lemma_decimal_short(v);
    let d = decimal(v);
    let w = (CODE_LENGTH - d.len()) as nat;
    let p = zero_pad(d, CODE_LENGTH as nat);
    assert(t =~= p);
    assert(is_digit(p[0]));
    assert(parse_unsigned(t, u64::MAX as nat) == Some(v));
    assert forall|i: int| 1 <= i < 8 implies '0' <= #[trigger] code_of(v)[i] <= '9' by {
        assert(code_of(v)[i] == t[i - 1]);
        assert(is_digit(t[i - 1]));
    }
}

/// The counter steps by one and wraps from 9999999 back to 1, never to 0.
pub proof fn lemma_counter_steps(v: nat)
    ensures
        v < 9_999_999 ==> increment(v) == v + 1,
        increment(9_999_999) == 1,
        v <= 9_999_999 ==> 1 <= increment(v) <= 9_999_999,
{
}

} // verus!
