//! The identity number: its character rules, its weighted checksum and the
//! fields it carries.
use vstd::prelude::*;
use vstd::arithmetic::power::{pow, lemma_pow_increases};
use vstd::arithmetic::div_mod::lemma_mul_mod_noop_right;
use crate::date::{Date, is_calendar_date};

verus! {

/// Number of characters of an identity number.
pub const LENGTH: usize = 18;

#[derive(Debug, Clone, Copy, PartialEq, Eq, Structural)]
pub enum Gender {
    Male,
    Female,
}

#[derive(Debug, Clone, Copy, PartialEq, Eq, Structural)]
pub enum ValidationError {
    InvalidLength,
    InvalidCharacters,
    InvalidDate,
    ChecksumError,
}

/// What a valid identity number carries. `address` is the region code, a
/// slice of the number itself.
#[derive(Debug, PartialEq, Eq)]
pub struct PersonalInfo<'a> {
    pub address: &'a str,
    pub date_of_birth: Date,
    pub order: u16,
    pub gender: Gender,
}

/// Region code, (year, month, day), order and gender.
pub type InfoView = (Seq<char>, (int, int, int), int, Gender);

impl<'a> View for PersonalInfo<'a> {
    type V = InfoView;

    open spec fn view(&self) -> InfoView {
        (self.address@, self.date_of_birth@, self.order as int, self.gender)
    }
}

/// The outcome of a validation, with the record seen through its view.
pub open spec fn outcome_view(r: Result<PersonalInfo, ValidationError>) -> Result<
    InfoView,
    ValidationError,
> {
    match r {
        Ok(info) => Ok(info@),
        Err(e) => Err(e),
    }
}

pub open spec fn is_digit(c: char) -> bool {
    '0' <= c <= '9'
}

pub open spec fn digit_value(c: char) -> int {
    c as int - '0' as int
}

/// The check character may stand for ten.
pub open spec fn is_ten_mark(c: char) -> bool {
    c == 'X' || c == 'x'
}

/// Every character is a digit, but the last, which may also be `X` or `x`.
pub open spec fn has_valid_chars(s: Seq<char>) -> bool {
    forall|k: int|
        0 <= k < s.len() ==> is_digit(#[trigger] s[k]) || (k == s.len() - 1 && is_ten_mark(s[k]))
}

/// Weight of the character `i` places before the last one: 2^i mod 11.
pub open spec fn weight(i: nat) -> int {
    pow(2, i) % 11
}

/// Contribution of character `c` standing `i` places before the last one.
pub open spec fn char_value(c: char, i: nat) -> int {
    if i == 0 && is_ten_mark(c) {
        10
    } else {
        digit_value(c)
    }
}

/// Weighted sum of the last `n` characters of `s`.
pub open spec fn weighted_sum(s: Seq<char>, n: nat) -> int
    decreases n,
{
    if n == 0 {
        0
    } else {
        let i = (n - 1) as nat;
        weighted_sum(s, i) + char_value(s[s.len() - n], i) * weight(i)
    }
}

pub open spec fn checksum(s: Seq<char>) -> int {
    weighted_sum(s, s.len())
}

/// Value of a run of decimal digits, most significant first.
pub open spec fn decimal(s: Seq<char>) -> int
    decreases s.len(),
{
    if s.len() == 0 {
        0
    } else {
        10 * decimal(s.drop_last()) + digit_value(s.last())
    }
}

pub open spec fn year_of(s: Seq<char>) -> int {
    decimal(s.subrange(6, 10))
}

pub open spec fn month_of(s: Seq<char>) -> int {
    decimal(s.subrange(10, 12))
}

pub open spec fn day_of(s: Seq<char>) -> int {
    decimal(s.subrange(12, 14))
}

pub open spec fn order_of(s: Seq<char>) -> int {
    decimal(s.subrange(14, 17))
}

/// Even orders are women's, odd orders men's.
pub open spec fn gender_of(order: int) -> Gender {
    if order % 2 == 0 {
        Gender::Female
    } else {
        Gender::Male
    }
}

/// What validating `s` yields: the first rule that `s` breaks, in the order
/// length, characters, checksum, date; else the fields it carries.
pub open spec fn spec_validate(s: Seq<char>) -> Result<InfoView, ValidationError> {
    if s.len() != LENGTH {
        Err(ValidationError::InvalidLength)
    } else if !has_valid_chars(s) {
        Err(ValidationError::InvalidCharacters)
    } else if checksum(s) % 11 != 1 {
        Err(ValidationError::ChecksumError)
    } else if !is_calendar_date(year_of(s), month_of(s), day_of(s)) {
        Err(ValidationError::InvalidDate)
    } else {
        Ok(
            (
                s.subrange(0, 6),
                (year_of(s), month_of(s), day_of(s)),
                order_of(s),
                gender_of(order_of(s)),
            ),
        )
    }
}

/// Validation is deterministic: two outcomes that each meet the contract of
/// `validate` for the same identity number carry the same error, or the same
/// region code, date, order and gender.
pub proof fn lemma_validate_deterministic(
    id: Seq<char>,
    r1: Result<PersonalInfo, ValidationError>,
    r2: Result<PersonalInfo, ValidationError>,
)
    requires
        outcome_view(r1) == spec_validate(id),
        outcome_view(r2) == spec_validate(id),
    ensures
        outcome_view(r1) == outcome_view(r2),
        r1 is Ok <==> r2 is Ok,
        r1 is Err ==> r1 == r2,
{
}

/// The value of the digits of `id` in `[from, to)`.
fn parse_digits(id: &str, from: usize, to: usize) -> (r: u32)
    requires
        from <= to <= id@.len(),
        to - from <= 4,
        forall|k: int| from <= k < to ==> is_digit(#[trigger] id@[k]),
    ensures
        r as int == decimal(id@.subrange(from as int, to as int)),
        (r as int) < pow(10, (to - from) as nat),
{
    let mut val: u32 = 0;
    let mut j: usize = from;
    proof {
        reveal(pow);
    }
    while j < to
        invariant
            from <= j <= to <= id@.len(),
            to - from <= 4,
            forall|k: int| from <= k < to ==> is_digit(#[trigger] id@[k]),
            val as int == decimal(id@.subrange(from as int, j as int)),
            (val as int) < pow(10, (j - from) as nat),
        decreases to - j,
    {
        let c = id.get_char(j);
        let d = c as u32 - '0' as u32;
        proof {
            let n = (j - from) as nat;
            lemma_pow_increases(10, n + 1, 4);
            reveal_with_fuel(pow, 5);
            assert(id@.subrange(from as int, j + 1).drop_last() =~= id@.subrange(
                from as int,
                j as int,
            ));
            assert(val * 10 + d < 10 * pow(10, n)) by (nonlinear_arith)
                requires
                    (val as int) < pow(10, n),
                    d <= 9,
            ;
        }
        val = val * 10 + d;
        j = j + 1;
    }
    val
}

/// Checks `id` and, where it is a valid identity number, returns what it
/// carries; else the first rule it breaks.
pub fn validate<'a>(id: &'a str) -> (r: Result<PersonalInfo<'a>, ValidationError>)
    ensures
        outcome_view(r) == spec_validate(id@),
        id@.len() != LENGTH ==> r == Err::<PersonalInfo<'a>, ValidationError>(
            ValidationError::InvalidLength,
        ),
        id@.len() == LENGTH && !has_valid_chars(id@) ==> r == Err::<
            PersonalInfo<'a>,
            ValidationError,
        >(ValidationError::InvalidCharacters),
        id@.len() == LENGTH && has_valid_chars(id@) && checksum(id@) % 11 != 1 ==> r == Err::<
            PersonalInfo<'a>,
            ValidationError,
        >(ValidationError::ChecksumError),
        id@.len() == LENGTH && has_valid_chars(id@) && checksum(id@) % 11 == 1
            && !is_calendar_date(year_of(id@), month_of(id@), day_of(id@)) ==> r == Err::<
            PersonalInfo<'a>,
            ValidationError,
        >(ValidationError::InvalidDate),
        r matches Ok(info) ==> info.order <= 999 && (info.gender == Gender::Female <==> info.order
            % 2 == 0) && info.address@.len() == 6 && info.date_of_birth.wf(),
{
    if id.unicode_len() != LENGTH {
        return Err(ValidationError::InvalidLength);
    }
    let mut sum: u32 = 0;
    let mut w: u32 = 1;
    let mut i: usize = 0;
    proof {
        reveal(pow);
    }
    while i < LENGTH
        invariant
            id@.len() == LENGTH,
            i <= LENGTH,
            w as int == weight(i as nat),
            w <= 10,
            sum as int == weighted_sum(id@, i as nat),
            sum <= 100 * i,
            forall|k: int|
                LENGTH - i <= k < LENGTH ==> is_digit(#[trigger] id@[k]) || (k == LENGTH - 1
                    && is_ten_mark(id@[k])),
        decreases LENGTH - i,
    {
        let c = id.get_char(LENGTH - 1 - i);
        let v: u32;
        if i == 0 && (c == 'X' || c == 'x') {
            v = 10;
        } else if '0' <= c && c <= '9' {
            v = c as u32 - '0' as u32;
        } else {
            assert(!has_valid_chars(id@)) by {
                assert(!is_digit(id@[LENGTH - 1 - i]));
            }
            return Err(ValidationError::InvalidCharacters);
        }
        proof {
            reveal(pow);
            lemma_mul_mod_noop_right(2, pow(2, i as nat), 11);
            assert(v * w <= 100) by (nonlinear_arith)
                requires
                    v <= 10,
                    w <= 10,
            ;
        }
        sum = sum + v * w;
        w = (w * 2) % 11;
        i = i + 1;
    }
    if sum % 11 != 1 {
        return Err(ValidationError::ChecksumError);
    }
    let year = parse_digits(id, 6, 10);
    let month = parse_digits(id, 10, 12);
    let day = parse_digits(id, 12, 14);
    let order = parse_digits(id, 14, 17);
    proof {
        reveal_with_fuel(pow, 5);
    }
    let date_of_birth = match Date::from_ymd_opt(year as i32, month, day) {
        Some(d) => d,
        None => {
            return Err(ValidationError::InvalidDate);
        },
    };
    let order = order as u16;
    let gender = if order % 2 == 0 {
        Gender::Female
    } else {
        Gender::Male
    };
    let address = id.substring_char(0, 6);
    Ok(PersonalInfo { address, date_of_birth, order, gender })
}

} // verus!
